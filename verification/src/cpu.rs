use vstd::prelude::*;
use crate::bus::{Bus, BusView};
use crate::sm83::{
    CpuView, Outcome, b2i, wrap16, shift_reg, inc_reg, dec_reg, fetch8, fetch16, push8, push16, pop8, alu, inc8, dec8, daa, cpl,
    scf, ccf, add_hl, rotate_a, shift, bit_test, res_bit, set_bit, load, store, load_imm,
    load_imm16, store_imm_hl, store_a_hl_step, load_a_hl_step, store_a_abs, load_a_abs,
    store_a_high, load_a_high, store_sp_abs, load_hl_sp_offset, add_sp_offset, alu_hl, alu_imm,
    inc_hl, dec_hl, pop_pair, pop_af, push_pair, push_af, jump_abs, jump_abs_if, jump_rel,
    jump_rel_if, call_to, call, call_if, ret_with, ret_if, reti, shift_hl, bit_hl, res_hl, set_hl,
    prefixed, exec_prefixed,
};
use crate::sm83;
use crate::cpu::Register::{A, B, C, D, E, H, L};
use crate::cpu::Register_16::{AF, BC, DE, HL, SP};

verus! {

pub struct Cpu {
    af: u16,
    bc: u16,
    de: u16,
    hl: u16,
    sp: u16,
    pc: u16,
    t_states: u32,
    m_cycles: u32,
    ime: u8,
}

/// The parts of the AF register: A in the high byte, the flags Z N H C in
/// bits 7-4 and the low nibble of F.
pub struct AfParts {
    pub a: u8,
    pub z: bool,
    pub n: bool,
    pub h: bool,
    pub c: bool,
    pub low: u8,
}

#[verifier::opaque]
pub open spec fn af_parts(af: u16) -> AfParts {
    AfParts {
        a: (af / 256) as u8,
        z: (af / 128) % 2 == 1,
        n: (af / 64) % 2 == 1,
        h: (af / 32) % 2 == 1,
        c: (af / 16) % 2 == 1,
        low: (af % 16) as u8,
    }
}

impl View for Cpu {
    type V = CpuView;

    closed spec fn view(&self) -> CpuView {
        CpuView {
            a: af_parts(self.af).a,
            zf: af_parts(self.af).z,
            nf: af_parts(self.af).n,
            hf: af_parts(self.af).h,
            cf: af_parts(self.af).c,
            f_low: af_parts(self.af).low,
            bc: self.bc,
            de: self.de,
            hl: self.hl,
            sp: self.sp,
            pc: self.pc,
            t_states: self.t_states,
            m_cycles: self.m_cycles,
            ime: self.ime,
        }
    }
}

enum Register {
    A,
    B,
    C,
    D,
    E,
    H,
    L,
}

impl Register {
    /// The register's number in the opcode encoding.
    spec fn idx(&self) -> int {
        match self {
            Register::B => 0,
            Register::C => 1,
            Register::D => 2,
            Register::E => 3,
            Register::H => 4,
            Register::L => 5,
            Register::A => 7,
        }
    }
}

#[allow(non_camel_case_types)]
enum Register_16 {
    AF,
    BC,
    DE,
    HL,
    SP,
}

impl Register_16 {
    /// The pair's number in the opcode encoding (AF has none).
    spec fn idx(&self) -> int {
        match self {
            Register_16::BC => 0,
            Register_16::DE => 1,
            Register_16::HL => 2,
            _ => 3,
        }
    }
}

enum Flag {
    Z,
    C,
}

/// The condition number (0 NZ, 1 Z, 2 NC, 3 C) of a flag and the value that
/// it must have.
spec fn cc_of(flag: Flag, condition: bool) -> int {
    match flag {
        Flag::Z => if condition {
            1
        } else {
            0
        },
        Flag::C => if condition {
            3
        } else {
            2
        },
    }
}

/// The outcome `o` is what the call did: `r` is its cycle count and the
/// registers and bus are its states, or `r` is `None` where `o` is.
pub open spec fn outcome(o: Outcome, c: CpuView, b: BusView, r: Option<u32>) -> bool {
    match o {
        Some((c2, b2, t)) => r == Some(t) && c == c2 && b == b2,
        None => r is None,
    }
}

proof fn lemma_word_bits(w: u16, v: u16)
    by (bit_vector)
    requires
        v < 256,
    ensures
        (w >> 8u16) == w / 256,
        (w as u8) == w % 256,
        ((w & 0x00FF) | (v << 8u16)) == v * 256 + w % 256,
        ((w & 0xFF00) | v) == (w / 256) * 256 + v,
        (((w & 0x00FF) | (v << 8u16)) / 128) % 2 == (w / 128) % 2,
        (((w & 0x00FF) | (v << 8u16)) / 64) % 2 == (w / 64) % 2,
        (((w & 0x00FF) | (v << 8u16)) / 32) % 2 == (w / 32) % 2,
        (((w & 0x00FF) | (v << 8u16)) / 16) % 2 == (w / 16) % 2,
        ((w & 0x00FF) | (v << 8u16)) % 16 == w % 16,
        ((v << 8u16) | (w & 0x00FF)) == v * 256 + w % 256,
{
}

proof fn lemma_flag_bits(af: u16, bit: u16)
    by (bit_vector)
    ensures
        ((af >> 7u16) & 1) == (af / 128) % 2,
        ((af >> 6u16) & 1) == (af / 64) % 2,
        ((af >> 5u16) & 1) == (af / 32) % 2,
        ((af >> 4u16) & 1) == (af / 16) % 2,
        ((af & !(1u16 << 7u16)) | ((bit & 1) << 7u16)) / 256 == af / 256,
        ((af & !(1u16 << 7u16)) | ((bit & 1) << 7u16)) % 16 == af % 16,
        (((af & !(1u16 << 7u16)) | ((bit & 1) << 7u16)) / 128) % 2 == bit % 2,
        (((af & !(1u16 << 7u16)) | ((bit & 1) << 7u16)) / 64) % 2 == (af / 64) % 2,
        (((af & !(1u16 << 7u16)) | ((bit & 1) << 7u16)) / 32) % 2 == (af / 32) % 2,
        (((af & !(1u16 << 7u16)) | ((bit & 1) << 7u16)) / 16) % 2 == (af / 16) % 2,
        ((af & !(1u16 << 6u16)) | ((bit & 1) << 6u16)) / 256 == af / 256,
        ((af & !(1u16 << 6u16)) | ((bit & 1) << 6u16)) % 16 == af % 16,
        (((af & !(1u16 << 6u16)) | ((bit & 1) << 6u16)) / 128) % 2 == (af / 128) % 2,
        (((af & !(1u16 << 6u16)) | ((bit & 1) << 6u16)) / 64) % 2 == bit % 2,
        (((af & !(1u16 << 6u16)) | ((bit & 1) << 6u16)) / 32) % 2 == (af / 32) % 2,
        (((af & !(1u16 << 6u16)) | ((bit & 1) << 6u16)) / 16) % 2 == (af / 16) % 2,
        ((af & !(1u16 << 5u16)) | ((bit & 1) << 5u16)) / 256 == af / 256,
        ((af & !(1u16 << 5u16)) | ((bit & 1) << 5u16)) % 16 == af % 16,
        (((af & !(1u16 << 5u16)) | ((bit & 1) << 5u16)) / 128) % 2 == (af / 128) % 2,
        (((af & !(1u16 << 5u16)) | ((bit & 1) << 5u16)) / 64) % 2 == (af / 64) % 2,
        (((af & !(1u16 << 5u16)) | ((bit & 1) << 5u16)) / 32) % 2 == bit % 2,
        (((af & !(1u16 << 5u16)) | ((bit & 1) << 5u16)) / 16) % 2 == (af / 16) % 2,
        ((af & !(1u16 << 4u16)) | ((bit & 1) << 4u16)) / 256 == af / 256,
        ((af & !(1u16 << 4u16)) | ((bit & 1) << 4u16)) % 16 == af % 16,
        (((af & !(1u16 << 4u16)) | ((bit & 1) << 4u16)) / 128) % 2 == (af / 128) % 2,
        (((af & !(1u16 << 4u16)) | ((bit & 1) << 4u16)) / 64) % 2 == (af / 64) % 2,
        (((af & !(1u16 << 4u16)) | ((bit & 1) << 4u16)) / 32) % 2 == (af / 32) % 2,
        (((af & !(1u16 << 4u16)) | ((bit & 1) << 4u16)) / 16) % 2 == bit % 2,
{
}

/// Facts about the byte operations that the instructions use.
proof fn lemma_byte_bits(x: u8, y: u8, s: u8)
    by (bit_vector)
    ensures
        (x & 0xF) == x % 16,
        (y & 0xF) == y % 16,
        s < 32 ==> ((s & 0x10) == 0x10) == (s >= 16),
        !x == 255 - x,
        (x >> 7u8) == x / 128,
        (x & 1) == x % 2,
        (x >> 1u8) == x / 2,
{
}

/// Left rotations and shifts of a byte.
proof fn lemma_rotate_left(x: u8, c: u8)
    by (bit_vector)
    requires
        c <= 1,
    ensures
        ((x << 1u8) | (x >> 7u8)) == (x * 2) % 256 + x / 128,
        ((((x << 1u8) | (x >> 7u8)) & 0xFE) | c) == (x * 2) % 256 + c,
        (x << 1u8) == (x * 2) % 256,
{
}

/// Right rotations of a byte.
proof fn lemma_rotate_right(x: u8, c: u8)
    by (bit_vector)
    requires
        c <= 1,
    ensures
        ((x >> 1u8) | (x << 7u8)) == x / 2 + (x % 2) * 128,
        ((((x >> 1u8) | (x << 7u8)) & 0x7F) | (c << 7u8)) == x / 2 + c * 128,
{
}

proof fn lemma_swap_nibbles(x: u8)
    by (bit_vector)
    ensures
        ((x << 4u8) | (x >> 4u8)) == (x % 16) * 16 + x / 16,
{
}

proof fn lemma_arithmetic_shift(x: u8)
    by (bit_vector)
    ensures
        (((x as i8) >> 1u8) as u8) == x / 2 + (x / 128) * 128,
{
}

/// Facts about words.
proof fn lemma_word_arith(w: u16, h: u8, l: u8, z: u16, n: u16, hf: u16, cf: u16)
    by (bit_vector)
    requires
        z <= 1,
        n <= 1,
        hf <= 1,
        cf <= 1,
    ensures
        (w & 0x0FFF) == w % 4096,
        (w & 0xF) == w % 16,
        (w & 0xFF) == w % 256,
        (w >> 8u16) == w / 256,
        ((w >> 8u16) as u8) == w / 256,
        (w as u8) == w % 256,
        (((h as u16) << 8u16) | (l as u16)) == (h as u16) * 256 + (l as u16),
        (((z << 7u16) | (n << 6u16) | (hf << 5u16) | (cf << 4u16)) as u8) == z * 128 + n * 64 + hf
            * 32 + cf * 16,
{
}

/// A byte read as a signed offset.
proof fn lemma_offset(v: u8)
    by (bit_vector)
    ensures
        v < 128 ==> ((v as i8) as i16) == (v as i16),
        v >= 128 ==> ((v as i8) as i16) == (v as i16) - 256,
        ((v as i8) as i16) & 0xF == (v % 16) as i16,
        ((v as i8) as i16) & 0xFF == v as i16,
        (((v as i8) & 0x0F) as i16) == (v % 16) as i16,
{
}

/// An address in the 0xFF00 page.
proof fn lemma_high_page(v: u8)
    by (bit_vector)
    ensures
        (0xFF00u16 | (v as u16)) == 0xFF00 + (v as u16),
{
}

/// The flag bits of the byte that POP AF reads.
proof fn lemma_flag_byte(v: u8)
    by (bit_vector)
    ensures
        (((v >> 7u8) & 1) as u16) == (v / 128) % 2,
        (((v >> 6u8) & 1) as u16) == (v / 64) % 2,
        (((v >> 5u8) & 1) as u16) == (v / 32) % 2,
        (((v >> 4u8) & 1) as u16) == (v / 16) % 2,
{
}

/// The registers after the boot ROM has run: AF 0x0100, BC 0xFF13, DE
/// 0x00C1, HL 0x8403, SP 0xFFFE, PC 0x0100, the counters and IME 0.
pub open spec fn initial_cpu() -> CpuView {
    CpuView {
        a: 0x01,
        zf: false,
        nf: false,
        hf: false,
        cf: false,
        f_low: 0,
        bc: 0xFF13,
        de: 0x00C1,
        hl: 0x8403,
        sp: 0xFFFE,
        pc: 0x100,
        t_states: 0,
        m_cycles: 0,
        ime: 0,
    }
}

#[allow(non_snake_case)]
impl Cpu {
    pub fn new() -> (cpu: Self)
        ensures
            cpu@ == initial_cpu(),
    {
        reveal(af_parts);
        Cpu {
            af: 0x0100,
            bc: 0xFF13,
            de: 0x00C1,
            hl: 0x8403,
            sp: 0xFFFE,
            pc: 0x100,
            t_states: 0,
            m_cycles: 0,
            ime: 0,
        }
    }

    fn set_a(&mut self, value: u8)
        ensures
            final(self)@ == (CpuView { a: value, ..old(self)@ }),
    {
        proof {
            reveal(af_parts);
            lemma_word_bits(self.af, value as u16);
        }
        self.af = (self.af & 0x00FF) | (u16::from(value) << 8u16);
    }

    /// The registers as they stand.
    pub fn registers(&self) -> (r: CpuView)
        ensures
            r == self@,
    {
        proof {
            reveal(af_parts);
        }
        CpuView {
            a: (self.af / 256) as u8,
            zf: (self.af / 128) % 2 == 1,
            nf: (self.af / 64) % 2 == 1,
            hf: (self.af / 32) % 2 == 1,
            cf: (self.af / 16) % 2 == 1,
            f_low: (self.af % 16) as u8,
            bc: self.bc,
            de: self.de,
            hl: self.hl,
            sp: self.sp,
            pc: self.pc,
            t_states: self.t_states,
            m_cycles: self.m_cycles,
            ime: self.ime,
        }
    }

    fn get_a(&self) -> (r: u8)
        ensures
            r == self@.a,
    {
        proof {
            reveal(af_parts);
            lemma_word_bits(self.af, 0);
        }
        (self.af >> 8u16) as u8
    }

    fn set_b(&mut self, value: u8)
        ensures
            final(self)@ == old(self)@.with_reg8(0, value),
    {
        proof {
            lemma_word_bits(self.bc, value as u16);
        }
        self.bc = (self.bc & 0x00FF) | (u16::from(value) << 8u16);
    }

    fn get_b(&self) -> (r: u8)
        ensures
            r == self@.b(),
    {
        proof {
            lemma_word_bits(self.bc, 0);
        }
        (self.bc >> 8u16) as u8
    }

    fn set_c(&mut self, value: u8)
        ensures
            final(self)@ == old(self)@.with_reg8(1, value),
    {
        proof {
            lemma_word_bits(self.bc, value as u16);
        }
        self.bc = (self.bc & 0xFF00) | u16::from(value);
    }

    fn get_c(&self) -> (r: u8)
        ensures
            r == self@.c(),
    {
        proof {
            lemma_word_bits(self.bc, 0);
        }
        self.bc as u8
    }

    fn set_d(&mut self, value: u8)
        ensures
            final(self)@ == old(self)@.with_reg8(2, value),
    {
        proof {
            lemma_word_bits(self.de, value as u16);
        }
        self.de = (self.de & 0x00FF) | (u16::from(value) << 8u16);
    }

    fn get_d(&self) -> (r: u8)
        ensures
            r == self@.d(),
    {
        proof {
            lemma_word_bits(self.de, 0);
        }
        (self.de >> 8u16) as u8
    }

    fn set_e(&mut self, value: u8)
        ensures
            final(self)@ == old(self)@.with_reg8(3, value),
    {
        proof {
            lemma_word_bits(self.de, value as u16);
        }
        self.de = (self.de & 0xFF00) | u16::from(value);
    }

    fn get_e(&self) -> (r: u8)
        ensures
            r == self@.e(),
    {
        proof {
            lemma_word_bits(self.de, 0);
        }
        self.de as u8
    }

    fn set_h(&mut self, value: u8)
        ensures
            final(self)@ == old(self)@.with_reg8(4, value),
    {
        proof {
            lemma_word_bits(self.hl, value as u16);
        }
        self.hl = (self.hl & 0x00FF) | (u16::from(value) << 8u16);
    }

    fn get_h(&self) -> (r: u8)
        ensures
            r == self@.h(),
    {
        proof {
            lemma_word_bits(self.hl, 0);
        }
        (self.hl >> 8u16) as u8
    }

    fn set_l(&mut self, value: u8)
        ensures
            final(self)@ == old(self)@.with_reg8(5, value),
    {
        proof {
            lemma_word_bits(self.hl, value as u16);
        }
        self.hl = (self.hl & 0xFF00) | u16::from(value);
    }

    fn get_l(&self) -> (r: u8)
        ensures
            r == self@.l(),
    {
        proof {
            lemma_word_bits(self.hl, 0);
        }
        self.hl as u8
    }

    fn set_flag_z(&mut self, bit: u16)
        ensures
            final(self)@ == (CpuView { zf: bit % 2 == 1, ..old(self)@ }),
    {
        proof {
            reveal(af_parts);
            lemma_flag_bits(self.af, bit);
        }
        self.af = (self.af & !(1u16 << 7u16)) | ((bit & 1) << 7u16);
    }

    fn set_flag_n(&mut self, bit: u16)
        ensures
            final(self)@ == (CpuView { nf: bit % 2 == 1, ..old(self)@ }),
    {
        proof {
            reveal(af_parts);
            lemma_flag_bits(self.af, bit);
        }
        self.af = (self.af & !(1u16 << 6u16)) | ((bit & 1) << 6u16);
    }

    fn set_flag_h(&mut self, bit: u16)
        ensures
            final(self)@ == (CpuView { hf: bit % 2 == 1, ..old(self)@ }),
    {
        proof {
            reveal(af_parts);
            lemma_flag_bits(self.af, bit);
        }
        self.af = (self.af & !(1u16 << 5u16)) | ((bit & 1) << 5u16);
    }

    fn set_flag_c(&mut self, bit: u16)
        ensures
            final(self)@ == (CpuView { cf: bit % 2 == 1, ..old(self)@ }),
    {
        proof {
            reveal(af_parts);
            lemma_flag_bits(self.af, bit);
        }
        self.af = (self.af & !(1u16 << 4u16)) | ((bit & 1) << 4u16);
    }

    fn get_flag_z(&mut self) -> (r: u16)
        ensures
            final(self)@ == old(self)@,
            r == b2i(old(self)@.zf),
    {
        proof {
            reveal(af_parts);
            lemma_flag_bits(self.af, 0);
        }
        return (self.af >> 7u16) & 1;
    }

    fn get_flag_n(&mut self) -> (r: u16)
        ensures
            final(self)@ == old(self)@,
            r == b2i(old(self)@.nf),
    {
        proof {
            reveal(af_parts);
            lemma_flag_bits(self.af, 0);
        }
        return (self.af >> 6u16) & 1;
    }

    fn get_flag_h(&mut self) -> (r: u16)
        ensures
            final(self)@ == old(self)@,
            r == b2i(old(self)@.hf),
    {
        proof {
            reveal(af_parts);
            lemma_flag_bits(self.af, 0);
        }
        return (self.af >> 5u16) & 1;
    }

    fn get_flag_c(&mut self) -> (r: u16)
        ensures
            final(self)@ == old(self)@,
            r == b2i(old(self)@.cf),
    {
        proof {
            reveal(af_parts);
            lemma_flag_bits(self.af, 0);
        }
        return (self.af >> 4u16) & 1;
    }

    fn get_reg(&mut self, reg: &Register) -> (r: u8)
        ensures
            final(self)@ == old(self)@,
            r == old(self)@.reg8(reg.idx()),
    {
        let value = match reg {
            A => self.get_a(),
            B => self.get_b(),
            C => self.get_c(),
            D => self.get_d(),
            E => self.get_e(),
            H => self.get_h(),
            L => self.get_l(),
        };
        return value;
    }

    fn set_reg(&mut self, reg: &Register, value: u8)
        ensures
            final(self)@ == old(self)@.with_reg8(reg.idx(), value),
    {
        match reg {
            A => self.set_a(value),
            B => self.set_b(value),
            C => self.set_c(value),
            D => self.set_d(value),
            E => self.set_e(value),
            H => self.set_h(value),
            L => self.set_l(value),
        }
    }

    fn read_n8(&mut self, bus: &mut Bus) -> (r: Option<u8>)
        requires
            old(bus)@.wf(),
        ensures
            final(bus)@.wf(),
            match fetch8(old(self)@, old(bus)@) {
                Some((c, b, v)) => r == Some(v) && final(self)@ == c && final(bus)@ == b,
                None => r is None,
            },
    {
        let value = bus.try_read(self.pc)?;
        if self.pc == 0xFFFF {
            return None;
        }
        self.pc += 1;
        return Some(value);
    }

    fn read_n16(&mut self, bus: &mut Bus) -> (r: Option<u16>)
        requires
            old(bus)@.wf(),
        ensures
            final(bus)@.wf(),
            match fetch16(old(self)@, old(bus)@) {
                Some((c, b, v)) => r == Some(v) && final(self)@ == c && final(bus)@ == b,
                None => r is None,
            },
    {
        let value_bottom = self.read_n8(bus)?;
        let value_top = self.read_n8(bus)?;
        proof {
            lemma_word_arith(0, value_top, value_bottom, 0, 0, 0, 0);
        }
        let value: u16 = (value_top as u16) << 8u16 | (value_bottom as u16);
        return Some(value);
    }

    /// Pushes a byte: moves SP down, then stores.
    fn push_byte(&mut self, value: u8, bus: &mut Bus) -> (ok: bool)
        requires
            old(bus)@.wf(),
        ensures
            final(bus)@.wf(),
            match push8(old(self)@, old(bus)@, value) {
                Some((c, b)) => ok && final(self)@ == c && final(bus)@ == b,
                None => !ok,
            },
    {
        if self.sp == 0 {
            return false;
        }
        self.sp -= 1;
        bus.try_write(self.sp, value)
    }

    /// Pops a byte: reads at SP, then moves SP up.
    fn pop_byte(&mut self, bus: &mut Bus) -> (r: Option<u8>)
        requires
            old(bus)@.wf(),
        ensures
            final(bus)@.wf(),
            match pop8(old(self)@, old(bus)@) {
                Some((c, b, v)) => r == Some(v) && final(self)@ == c && final(bus)@ == b,
                None => r is None,
            },
    {
        let value = bus.try_read(self.sp)?;
        if self.sp == 0xFFFF {
            return None;
        }
        self.sp += 1;
        Some(value)
    }

    fn NOP() -> (t: u32)
        ensures
            t == 4,
    {
        return 4;
    }

    fn LD_r8_r8(&mut self, reg1: Register, reg2: Register) -> (t: u32)
        ensures
            final(self)@ == old(self)@.with_reg8(reg1.idx(), old(self)@.reg8(reg2.idx())),
            t == 4,
    {
        let value = self.get_reg(&reg2);
        self.set_reg(&reg1, value);
        return 4;
    }

    fn LD_r8_n8(&mut self, reg: Register, bus: &mut Bus) -> (r: Option<u32>)
        requires
            old(bus)@.wf(),
        ensures
            final(bus)@.wf(),
            outcome(load_imm(old(self)@, old(bus)@, reg.idx()), final(self)@, final(bus)@, r),
    {
        proof {
            reveal(load_imm);
        }
        let value = self.read_n8(bus)?;
        self.set_reg(&reg, value);
        return Some(8);
    }

    fn LD_r16_n16(&mut self, reg_16: Register_16, bus: &mut Bus) -> (r: Option<u32>)
        requires
            old(bus)@.wf(),
            !(reg_16 is AF),
        ensures
            final(bus)@.wf(),
            outcome(load_imm16(old(self)@, old(bus)@, reg_16.idx()), final(self)@, final(bus)@, r),
    {
        proof {
            reveal(load_imm16);
        }
        let value = self.read_n16(bus)?;
        match reg_16 {
            AF => {
                proof {
                    assert(false);
                }
            },
            BC => self.bc = value,
            DE => self.de = value,
            HL => self.hl = value,
            SP => self.sp = value,
        }
        return Some(12);
    }

    fn LD_a16_r8(&mut self, reg_16: Register_16, reg: Register, bus: &mut Bus) -> (r: Option<u32>)
        requires
            old(bus)@.wf(),
            reg_16 is BC || reg_16 is DE || reg_16 is HL,
        ensures
            final(bus)@.wf(),
            outcome(
                store(
                    old(self)@,
                    old(bus)@,
                    old(self)@.rp(reg_16.idx()),
                    old(self)@.reg8(reg.idx()),
                    8,
                ),
                final(self)@,
                final(bus)@,
                r,
            ),
    {
        proof {
            reveal(store);
        }
        let addr = match reg_16 {
            BC => self.bc,
            DE => self.de,
            HL => self.hl,
            _ => {
                proof {
                    assert(false);
                }
                0
            },
        };
        let data = self.get_reg(&reg);
        if !bus.try_write(addr, data) {
            return None;
        }
        return Some(8);
    }

    fn LD_a16_n8(&mut self, reg_16: Register_16, bus: &mut Bus) -> (r: Option<u32>)
        requires
            old(bus)@.wf(),
            reg_16 is HL,
        ensures
            final(bus)@.wf(),
            outcome(store_imm_hl(old(self)@, old(bus)@), final(self)@, final(bus)@, r),
    {
        proof {
            reveal(store);
            reveal(store_imm_hl);
        }
        let addr = match reg_16 {
            HL => self.hl,
            _ => {
                proof {
                    assert(false);
                }
                0
            },
        };
        let data = self.read_n8(bus)?;
        if !bus.try_write(addr, data) {
            return None;
        }
        return Some(12);
    }

    fn LD_r8_a16(&mut self, reg: Register, reg_16: Register_16, bus: &mut Bus) -> (r: Option<u32>)
        requires
            old(bus)@.wf(),
            reg_16 is BC || reg_16 is DE || reg_16 is HL,
        ensures
            final(bus)@.wf(),
            outcome(
                load(old(self)@, old(bus)@, reg.idx(), old(self)@.rp(reg_16.idx()), 8),
                final(self)@,
                final(bus)@,
                r,
            ),
    {
        proof {
            reveal(load);
        }
        let addr = match reg_16 {
            BC => self.bc,
            DE => self.de,
            HL => self.hl,
            _ => {
                proof {
                    assert(false);
                }
                0
            },
        };
        let data = bus.try_read(addr)?;
        self.set_reg(&reg, data);
        return Some(8);
    }

    fn LD_n16_A(&mut self, bus: &mut Bus) -> (r: Option<u32>)
        requires
            old(bus)@.wf(),
        ensures
            final(bus)@.wf(),
            outcome(store_a_abs(old(self)@, old(bus)@), final(self)@, final(bus)@, r),
    {
        proof {
            reveal(store);
            reveal(store_a_abs);
        }
        let data = self.get_a();
        let addr = self.read_n16(bus)?;
        if !bus.try_write(addr, data) {
            return None;
        }
        return Some(16);
    }

    // a.k.a. LDH [a8] A
    fn LDH_n16_A(&mut self, bus: &mut Bus) -> (r: Option<u32>)
        requires
            old(bus)@.wf(),
        ensures
            final(bus)@.wf(),
            outcome(store_a_high(old(self)@, old(bus)@), final(self)@, final(bus)@, r),
    {
        proof {
            reveal(store);
            reveal(store_a_high);
        }
        let addr_bottom = self.read_n8(bus)?;
        proof {
            lemma_high_page(addr_bottom);
        }
        let addr: u16 = 0xFF00 | (addr_bottom as u16);
        if !bus.try_write(addr, self.get_a()) {
            return None;
        }
        return Some(12);
    }

    fn LDH_C_A(&mut self, bus: &mut Bus) -> (r: Option<u32>)
        requires
            old(bus)@.wf(),
        ensures
            final(bus)@.wf(),
            outcome(
                store(old(self)@, old(bus)@, (0xFF00 + old(self)@.c()) as u16, old(self)@.a, 8),
                final(self)@,
                final(bus)@,
                r,
            ),
    {
        proof {
            reveal(store);
        }
        if !bus.try_write(0xFF00 + self.get_c() as u16, self.get_a()) {
            return None;
        }
        return Some(8);
    }

    fn LD_A_n16(&mut self, bus: &mut Bus) -> (r: Option<u32>)
        requires
            old(bus)@.wf(),
        ensures
            final(bus)@.wf(),
            outcome(load_a_abs(old(self)@, old(bus)@), final(self)@, final(bus)@, r),
    {
        proof {
            reveal(load);
            reveal(load_a_abs);
        }
        let addr = self.read_n16(bus)?;
        self.set_a(bus.try_read(addr)?);
        return Some(16);
    }

    // a.k.a LDH A, [a8]
    fn LDH_A_n16(&mut self, bus: &mut Bus) -> (r: Option<u32>)
        requires
            old(bus)@.wf(),
        ensures
            final(bus)@.wf(),
            outcome(load_a_high(old(self)@, old(bus)@), final(self)@, final(bus)@, r),
    {
        proof {
            reveal(load);
            reveal(load_a_high);
        }
        let addr_bottom = self.read_n8(bus)?;
        proof {
            lemma_high_page(addr_bottom);
        }
        let addr: u16 = 0xFF00 | (addr_bottom as u16);
        self.set_a(bus.try_read(addr)?);
        return Some(12);
    }

    fn LDH_A_C(&mut self, bus: &mut Bus) -> (r: Option<u32>)
        requires
            old(bus)@.wf(),
        ensures
            final(bus)@.wf(),
            outcome(
                load(old(self)@, old(bus)@, 7, (0xFF00 + old(self)@.c()) as u16, 8),
                final(self)@,
                final(bus)@,
                r,
            ),
    {
        proof {
            reveal(load);
        }
        self.set_a(bus.try_read(0xFF00 + self.get_c() as u16)?);
        return Some(8);
    }

    fn LD_HLI_A(&mut self, bus: &mut Bus) -> (r: Option<u32>)
        requires
            old(bus)@.wf(),
        ensures
            final(bus)@.wf(),
            outcome(store_a_hl_step(old(self)@, old(bus)@, 1), final(self)@, final(bus)@, r),
    {
        proof {
            reveal(store_a_hl_step);
        }
        if !bus.try_write(self.hl, self.get_a()) {
            return None;
        }
        self.hl = self.hl.wrapping_add(1);
        return Some(8);
    }

    fn LD_A_HLI(&mut self, bus: &mut Bus) -> (r: Option<u32>)
        requires
            old(bus)@.wf(),
        ensures
            final(bus)@.wf(),
            outcome(load_a_hl_step(old(self)@, old(bus)@, 1), final(self)@, final(bus)@, r),
    {
        proof {
            reveal(load_a_hl_step);
        }
        self.set_a(bus.try_read(self.hl)?);
        self.hl = self.hl.wrapping_add(1);
        return Some(8);
    }

    fn LD_HLD_A(&mut self, bus: &mut Bus) -> (r: Option<u32>)
        requires
            old(bus)@.wf(),
        ensures
            final(bus)@.wf(),
            outcome(store_a_hl_step(old(self)@, old(bus)@, -1), final(self)@, final(bus)@, r),
    {
        proof {
            reveal(store_a_hl_step);
        }
        if !bus.try_write(self.hl, self.get_a()) {
            return None;
        }
        self.hl = self.hl.wrapping_sub(1);
        return Some(8);
    }

    fn LD_A_HLD(&mut self, bus: &mut Bus) -> (r: Option<u32>)
        requires
            old(bus)@.wf(),
        ensures
            final(bus)@.wf(),
            outcome(load_a_hl_step(old(self)@, old(bus)@, -1), final(self)@, final(bus)@, r),
    {
        proof {
            reveal(load_a_hl_step);
        }
        self.set_a(bus.try_read(self.hl)?);
        self.hl = self.hl.wrapping_sub(1);
        return Some(8);
    }

    fn LD_SP_HL(&mut self) -> (t: u32)
        ensures
            final(self)@ == old(self)@.with_sp(old(self)@.hl),
            t == 8,
    {
        self.sp = self.hl;
        return 8;
    }

    fn LD_HL_SP_e8(&mut self, bus: &mut Bus) -> (r: Option<u32>)
        requires
            old(bus)@.wf(),
        ensures
            final(bus)@.wf(),
            outcome(load_hl_sp_offset(old(self)@, old(bus)@), final(self)@, final(bus)@, r),
    {
        proof {
            reveal(load_hl_sp_offset);
        }
        let byte = self.read_n8(bus)?;
        proof {
            lemma_offset(byte);
            lemma_word_arith(self.sp, 0, 0, 0, 0, 0, 0);
        }
        let offset: i8 = byte as i8;
        let wide: i16 = offset.into();
        let result = self.sp.wrapping_add_signed(wide);
        let overflow = if wide >= 0 {
            result < self.sp
        } else {
            result > self.sp
        };
        self.hl = result;
        self.set_flag_z(0);
        self.set_flag_n(0);
        self.set_flag_h(((self.sp & 0x0F).wrapping_add_signed(i16::from(offset & 0x0F)) > 0x0F) as u16);
        self.set_flag_c(overflow as u16);
        return Some(12);
    }

    fn LD_a16_SP(&mut self, bus: &mut Bus) -> (r: Option<u32>)
        requires
            old(bus)@.wf(),
        ensures
            final(bus)@.wf(),
            outcome(store_sp_abs(old(self)@, old(bus)@), final(self)@, final(bus)@, r),
    {
        proof {
            reveal(store);
            reveal(store_sp_abs);
        }
        let addr = self.read_n16(bus)?;
        proof {
            lemma_word_arith(self.sp, 0, 0, 0, 0, 0, 0);
        }
        if !bus.try_write(addr, (self.sp & 0xFF) as u8) {
            return None;
        }
        if addr == 0xFFFF {
            return None;
        }
        if !bus.try_write(addr + 1, (self.sp >> 8u16) as u8) {
            return None;
        }
        return Some(20);
    }

    fn CP_A_r8(&mut self, reg: Register) -> (t: u32)
        ensures
            final(self)@ == alu(old(self)@, 7, old(self)@.reg8(reg.idx())),
            t == 4,
    {
        proof {
            reveal(alu);
        }
        let operand = self.get_reg(&reg);
        proof {
            lemma_byte_bits(self@.a, operand, 0);
        }
        let result = self.get_a().wrapping_sub(operand);
        self.set_flag_z((result == 0) as u16);
        self.set_flag_n(1);
        self.set_flag_h(((self.get_a() & 0xF) < (operand & 0xF)) as u16);
        self.set_flag_c((operand > self.get_a()) as u16);
        return 4;
    }

    fn CP_A_HL(&mut self, bus: &mut Bus) -> (r: Option<u32>)
        requires
            old(bus)@.wf(),
        ensures
            final(bus)@.wf(),
            outcome(alu_hl(old(self)@, old(bus)@, 7), final(self)@, final(bus)@, r),
    {
        proof {
            reveal(alu);
            reveal(alu_hl);
        }
        let operand = bus.try_read(self.hl)?;
        proof {
            lemma_byte_bits(self@.a, operand, 0);
        }
        let result = self.get_a().wrapping_sub(operand);
        self.set_flag_z((result == 0) as u16);
        self.set_flag_n(1);
        self.set_flag_h(((self.get_a() & 0xF) < (operand & 0xF)) as u16);
        self.set_flag_c((operand > self.get_a()) as u16);
        return Some(8);
    }

    fn CP_A_n8(&mut self, bus: &mut Bus) -> (r: Option<u32>)
        requires
            old(bus)@.wf(),
        ensures
            final(bus)@.wf(),
            outcome(alu_imm(old(self)@, old(bus)@, 7), final(self)@, final(bus)@, r),
    {
        proof {
            reveal(alu);
            reveal(alu_imm);
        }
        let operand = self.read_n8(bus)?;
        proof {
            lemma_byte_bits(self@.a, operand, 0);
        }
        let result = self.get_a().wrapping_sub(operand);
        self.set_flag_z((result == 0) as u16);
        self.set_flag_n(1);
        self.set_flag_h(((self.get_a() & 0xF) < (operand & 0xF)) as u16);
        self.set_flag_c((operand > self.get_a()) as u16);
        return Some(8);
    }

    fn CPL(&mut self) -> (t: u32)
        ensures
            final(self)@ == cpl(old(self)@),
            t == 4,
    {
        proof {
            reveal(cpl);
        }
        proof {
            lemma_byte_bits(self@.a, 0, 0);
        }
        self.set_a(!self.get_a());
        self.set_flag_n(1);
        self.set_flag_h(1);
        return 4;
    }

    fn AND_A_r8(&mut self, reg: Register) -> (t: u32)
        ensures
            final(self)@ == alu(old(self)@, 4, old(self)@.reg8(reg.idx())),
            t == 4,
    {
        proof {
            reveal(alu);
        }
        let operand = self.get_reg(&reg);
        let result = self.get_a() & operand;
        self.set_a(result);
        self.set_flag_z((result == 0) as u16);
        self.set_flag_n(0);
        self.set_flag_h(1);
        self.set_flag_c(0);
        return 4;
    }

    fn AND_A_HL(&mut self, bus: &mut Bus) -> (r: Option<u32>)
        requires
            old(bus)@.wf(),
        ensures
            final(bus)@.wf(),
            outcome(alu_hl(old(self)@, old(bus)@, 4), final(self)@, final(bus)@, r),
    {
        proof {
            reveal(alu);
            reveal(alu_hl);
        }
        let operand = bus.try_read(self.hl)?;
        let result = self.get_a() & operand;
        self.set_a(result);
        self.set_flag_z((result == 0) as u16);
        self.set_flag_n(0);
        self.set_flag_h(1);
        self.set_flag_c(0);
        return Some(8);
    }

    fn AND_A_n8(&mut self, bus: &mut Bus) -> (r: Option<u32>)
        requires
            old(bus)@.wf(),
        ensures
            final(bus)@.wf(),
            outcome(alu_imm(old(self)@, old(bus)@, 4), final(self)@, final(bus)@, r),
    {
        proof {
            reveal(alu);
            reveal(alu_imm);
        }
        let operand = self.read_n8(bus)?;
        let result = self.get_a() & operand;
        self.set_a(result);
        self.set_flag_z((result == 0) as u16);
        self.set_flag_n(0);
        self.set_flag_h(1);
        self.set_flag_c(0);
        return Some(8);
    }

    fn OR_A_r8(&mut self, reg: Register) -> (t: u32)
        ensures
            final(self)@ == alu(old(self)@, 6, old(self)@.reg8(reg.idx())),
            t == 4,
    {
        proof {
            reveal(alu);
        }
        let operand = self.get_reg(&reg);
        let result = operand | self.get_a();
        self.set_a(result);
        self.set_flag_z((result == 0) as u16);
        self.set_flag_n(0);
        self.set_flag_h(0);
        self.set_flag_c(0);
        return 4;
    }

    fn OR_A_HL(&mut self, bus: &mut Bus) -> (r: Option<u32>)
        requires
            old(bus)@.wf(),
        ensures
            final(bus)@.wf(),
            outcome(alu_hl(old(self)@, old(bus)@, 6), final(self)@, final(bus)@, r),
    {
        proof {
            reveal(alu);
            reveal(alu_hl);
        }
        let operand = bus.try_read(self.hl)?;
        let result = operand | self.get_a();
        self.set_a(result);
        self.set_flag_z((result == 0) as u16);
        self.set_flag_n(0);
        self.set_flag_h(0);
        self.set_flag_c(0);
        return Some(8);
    }

    fn OR_A_n8(&mut self, bus: &mut Bus) -> (r: Option<u32>)
        requires
            old(bus)@.wf(),
        ensures
            final(bus)@.wf(),
            outcome(alu_imm(old(self)@, old(bus)@, 6), final(self)@, final(bus)@, r),
    {
        proof {
            reveal(alu);
            reveal(alu_imm);
        }
        let operand = self.read_n8(bus)?;
        let result = operand | self.get_a();
        self.set_a(result);
        self.set_flag_z((result == 0) as u16);
        self.set_flag_n(0);
        self.set_flag_h(0);
        self.set_flag_c(0);
        return Some(8);
    }

    fn XOR_A_r8(&mut self, reg: Register) -> (t: u32)
        ensures
            final(self)@ == alu(old(self)@, 5, old(self)@.reg8(reg.idx())),
            t == 4,
    {
        proof {
            reveal(alu);
        }
        let operand = self.get_reg(&reg);
        let result = operand ^ self.get_a();
        self.set_a(result);
        self.set_flag_z((result == 0) as u16);
        self.set_flag_n(0);
        self.set_flag_h(0);
        self.set_flag_c(0);
        return 4;
    }

    fn XOR_A_n8(&mut self, bus: &mut Bus) -> (r: Option<u32>)
        requires
            old(bus)@.wf(),
        ensures
            final(bus)@.wf(),
            outcome(alu_imm(old(self)@, old(bus)@, 5), final(self)@, final(bus)@, r),
    {
        proof {
            reveal(alu);
            reveal(alu_imm);
        }
        let result = self.read_n8(bus)? ^ self.get_a();
        self.set_a(result);
        self.set_flag_z((result == 0) as u16);
        self.set_flag_n(0);
        self.set_flag_h(0);
        self.set_flag_c(0);
        return Some(8);
    }

    fn XOR_A_HL(&mut self, bus: &mut Bus) -> (r: Option<u32>)
        requires
            old(bus)@.wf(),
        ensures
            final(bus)@.wf(),
            outcome(alu_hl(old(self)@, old(bus)@, 5), final(self)@, final(bus)@, r),
    {
        proof {
            reveal(alu);
            reveal(alu_hl);
        }
        let result = bus.try_read(self.hl)? ^ self.get_a();
        self.set_a(result);
        self.set_flag_z((result == 0) as u16);
        self.set_flag_n(0);
        self.set_flag_h(0);
        self.set_flag_c(0);
        return Some(8);
    }

    fn INC_r8(&mut self, reg: Register) -> (t: u32)
        ensures
            final(self)@ == inc_reg(old(self)@, reg.idx()),
            t == 4,
    {
        proof {
            reveal(inc_reg);
        }
        let lhs = self.get_reg(&reg);
        let rhs: u8 = 1;
        let result = lhs.wrapping_add(rhs);
        let z_flag = result == 0;
        proof {
            lemma_byte_bits(lhs, rhs, 0);
        }
        let nibbles = (lhs & 0xF) + (rhs & 0xF);
        proof {
            lemma_byte_bits(lhs, rhs, nibbles);
        }
        let h_flag = (nibbles & 0x10) == 0x10;
        self.set_flag_n(0);
        self.set_flag_z(z_flag as u16);
        self.set_flag_h(h_flag as u16);
        self.set_reg(&reg, result);
        return 4;
    }

    fn INC_HL(&mut self, bus: &mut Bus) -> (r: Option<u32>)
        requires
            old(bus)@.wf(),
        ensures
            final(bus)@.wf(),
            outcome(inc_hl(old(self)@, old(bus)@), final(self)@, final(bus)@, r),
    {
        proof {
            reveal(inc_hl);
            reveal(store);
        }
        let lhs = bus.try_read(self.hl)?;
        let rhs: u8 = 1;
        let result = lhs.wrapping_add(rhs);
        let z_flag = result == 0;
        proof {
            lemma_byte_bits(lhs, rhs, 0);
        }
        let nibbles = (lhs & 0xF) + (rhs & 0xF);
        proof {
            lemma_byte_bits(lhs, rhs, nibbles);
        }
        let h_flag = (nibbles & 0x10) == 0x10;
        self.set_flag_n(0);
        self.set_flag_z(z_flag as u16);
        self.set_flag_h(h_flag as u16);
        if !bus.try_write(self.hl, result) {
            return None;
        }
        return Some(12);
    }

    fn INC_r16(&mut self, reg_16: Register_16) -> (t: u32)
        requires
            !(reg_16 is AF),
        ensures
            final(self)@ == old(self)@.with_rp(
                reg_16.idx(),
                wrap16(old(self)@.rp(reg_16.idx()) + 1),
            ),
            t == 8,
    {
        match reg_16 {
            AF => {
                proof {
                    assert(false);
                }
            },
            BC => self.bc = self.bc.wrapping_add(1),
            DE => self.de = self.de.wrapping_add(1),
            HL => self.hl = self.hl.wrapping_add(1),
            SP => self.sp = self.sp.wrapping_add(1),
        }
        return 8;
    }

    fn DEC_r8(&mut self, reg: Register) -> (t: u32)
        ensures
            final(self)@ == dec_reg(old(self)@, reg.idx()),
            t == 4,
    {
        proof {
            reveal(dec_reg);
        }
        let lhs = self.get_reg(&reg);
        let rhs: u8 = 1;
        proof {
            lemma_byte_bits(lhs, rhs, 0);
        }
        let result = lhs.wrapping_sub(rhs);
        self.set_flag_z((result == 0) as u16);
        self.set_flag_n(1);
        self.set_flag_h(((lhs & 0xF) < (rhs & 0xF)) as u16);
        self.set_reg(&reg, result);
        return 4;
    }

    fn DEC_HL(&mut self, bus: &mut Bus) -> (r: Option<u32>)
        requires
            old(bus)@.wf(),
        ensures
            final(bus)@.wf(),
            outcome(dec_hl(old(self)@, old(bus)@), final(self)@, final(bus)@, r),
    {
        proof {
            reveal(dec_hl);
            reveal(store);
        }
        let lhs = bus.try_read(self.hl)?;
        let rhs: u8 = 1;
        proof {
            lemma_byte_bits(lhs, rhs, 0);
        }
        let result = lhs.wrapping_sub(rhs);
        self.set_flag_z((result == 0) as u16);
        self.set_flag_n(1);
        self.set_flag_h(((lhs & 0xF) < (rhs & 0xF)) as u16);
        if !bus.try_write(self.hl, result) {
            return None;
        }
        return Some(12);
    }

    fn DEC_r16(&mut self, reg_16: Register_16) -> (t: u32)
        requires
            !(reg_16 is AF),
        ensures
            final(self)@ == old(self)@.with_rp(
                reg_16.idx(),
                wrap16(old(self)@.rp(reg_16.idx()) - 1),
            ),
            t == 8,
    {
        match reg_16 {
            AF => {
                proof {
                    assert(false);
                }
            },
            BC => self.bc = self.bc.wrapping_sub(1),
            DE => self.de = self.de.wrapping_sub(1),
            HL => self.hl = self.hl.wrapping_sub(1),
            SP => self.sp = self.sp.wrapping_sub(1),
        }
        return 8;
    }

    fn DAA(&mut self) -> (t: u32)
        ensures
            final(self)@ == daa(old(self)@),
            t == 4,
    {
        proof {
            reveal(daa);
        }
        proof {
            lemma_byte_bits(self@.a, 0, 0);
        }
        let mut adj: u8 = 0;
        if self.get_flag_n() == 1 {
            if self.get_flag_h() == 1 {
                adj += 0x6;
            }
            if self.get_flag_c() == 1 {
                adj += 0x60;
            }
            self.set_a(self.get_a().wrapping_sub(adj));
        } else {
            if self.get_flag_h() == 1 || self.get_a() & 0xF > 0x9 {
                adj += 0x6;
            }
            if self.get_flag_c() == 1 || self.get_a() > 0x99 {
                adj += 0x60;
                self.set_flag_c(1);
            }
            self.set_a(self.get_a().wrapping_add(adj));
        }
        self.set_flag_z((self.get_a() == 0) as u16);
        self.set_flag_h(0);
        return 4;
    }

    fn ADD_A_r8(&mut self, reg: Register) -> (t: u32)
        ensures
            final(self)@ == alu(old(self)@, 0, old(self)@.reg8(reg.idx())),
            t == 4,
    {
        proof {
            reveal(alu);
        }
        let operand = self.get_reg(&reg);
        let a = self.get_a();
        let result = a.wrapping_add(operand);
        let overflow = (a as u16) + (operand as u16) > 0xFF;
        self.set_a(result);
        self.set_flag_z((result == 0) as u16);
        self.set_flag_n(0);
        proof {
            lemma_byte_bits(result, operand, 0);
        }
        let nibbles = (self.get_a() & 0xF) + (operand & 0xF);
        proof {
            lemma_byte_bits(result, operand, nibbles);
        }
        self.set_flag_h(((nibbles & 0x10) == 0x10) as u16);
        self.set_flag_c(overflow as u16);
        return 4;
    }

    fn ADD_A_HL(&mut self, bus: &mut Bus) -> (r: Option<u32>)
        requires
            old(bus)@.wf(),
        ensures
            final(bus)@.wf(),
            outcome(alu_hl(old(self)@, old(bus)@, 0), final(self)@, final(bus)@, r),
    {
        proof {
            reveal(alu);
            reveal(alu_hl);
        }
        let operand = bus.try_read(self.hl)?;
        let a = self.get_a();
        let result = a.wrapping_add(operand);
        let overflow = (a as u16) + (operand as u16) > 0xFF;
        self.set_a(result);
        self.set_flag_z((result == 0) as u16);
        self.set_flag_n(0);
        proof {
            lemma_byte_bits(result, operand, 0);
        }
        let nibbles = (self.get_a() & 0xF) + (operand & 0xF);
        proof {
            lemma_byte_bits(result, operand, nibbles);
        }
        self.set_flag_h(((nibbles & 0x10) == 0x10) as u16);
        self.set_flag_c(overflow as u16);
        return Some(8);
    }

    fn ADD_A_n8(&mut self, bus: &mut Bus) -> (r: Option<u32>)
        requires
            old(bus)@.wf(),
        ensures
            final(bus)@.wf(),
            outcome(alu_imm(old(self)@, old(bus)@, 0), final(self)@, final(bus)@, r),
    {
        proof {
            reveal(alu);
            reveal(alu_imm);
        }
        let operand = self.read_n8(bus)?;
        let a = self.get_a();
        let result = a.wrapping_add(operand);
        let overflow = (a as u16) + (operand as u16) > 0xFF;
        self.set_a(result);
        self.set_flag_z((result == 0) as u16);
        self.set_flag_n(0);
        proof {
            lemma_byte_bits(result, operand, 0);
        }
        let nibbles = (self.get_a() & 0xF) + (operand & 0xF);
        proof {
            lemma_byte_bits(result, operand, nibbles);
        }
        self.set_flag_h(((nibbles & 0x10) == 0x10) as u16);
        self.set_flag_c(overflow as u16);
        return Some(8);
    }

    fn ADD_HL_r16(&mut self, reg_16: Register_16) -> (t: u32)
        requires
            !(reg_16 is AF),
        ensures
            final(self)@ == add_hl(old(self)@, old(self)@.rp(reg_16.idx())),
            t == 8,
    {
        proof {
            reveal(add_hl);
        }
        let operand = match reg_16 {
            AF => {
                proof {
                    assert(false);
                }
                0
            },
            BC => self.bc,
            DE => self.de,
            HL => self.hl,
            SP => self.sp,
        };
        let hl = self.hl;
        let result = hl.wrapping_add(operand);
        let overflow = (hl as u32) + (operand as u32) > 0xFFFF;
        self.hl = result;
        self.set_flag_n(0);
        proof {
            lemma_word_arith(result, 0, 0, 0, 0, 0, 0);
            lemma_word_arith(operand, 0, 0, 0, 0, 0, 0);
        }
        self.set_flag_h(((self.hl & 0x0FFF) + (operand & 0x0FFF) > 0x0FFF) as u16);
        self.set_flag_c(overflow as u16);
        return 8;
    }

    fn ADD_SP_e8(&mut self, bus: &mut Bus) -> (r: Option<u32>)
        requires
            old(bus)@.wf(),
        ensures
            final(bus)@.wf(),
            outcome(add_sp_offset(old(self)@, old(bus)@), final(self)@, final(bus)@, r),
    {
        proof {
            reveal(add_sp_offset);
        }
        let byte = self.read_n8(bus)?;
        proof {
            lemma_offset(byte);
        }
        let offset = byte as i8;
        let result = self.sp.wrapping_add_signed(offset.into());
        self.sp = result;
        proof {
            lemma_word_arith(result, 0, 0, 0, 0, 0, 0);
        }
        self.set_flag_z(0);
        self.set_flag_n(0);
        self.set_flag_h(((self.sp & 0xF).wrapping_add_signed((offset as i16) & 0xF) > 0xF) as u16);
        self.set_flag_c(
            ((self.sp & 0xFF).wrapping_add_signed((offset as i16) & 0xFF) > 0xFF) as u16,
        );
        return Some(16);
    }

    #[verifier::rlimit(80)]
    fn ADC_A_r8(&mut self, reg: Register) -> (t: u32)
        ensures
            final(self)@ == alu(old(self)@, 1, old(self)@.reg8(reg.idx())),
            t == 4,
    {
        proof {
            reveal(alu);
        }
        let operand = self.get_reg(&reg);
        let a = self.get_a();
        let carry = self.get_flag_c() as u8;
        let intermediate = a.wrapping_add(operand);
        let overflow1 = (a as u16) + (operand as u16) > 0xFF;
        let result = intermediate.wrapping_add(carry);
        let overflow2 = (intermediate as u16) + (carry as u16) > 0xFF;
        self.set_a(result);
        self.set_flag_z((result == 0) as u16);
        self.set_flag_n(0);
        proof {
            lemma_byte_bits(result, operand, 0);
        }
        let nibbles = (self.get_a() & 0xF) + (operand & 0xF);
        proof {
            lemma_byte_bits(result, operand, nibbles);
        }
        self.set_flag_h(((nibbles & 0x10) == 0x10) as u16);
        self.set_flag_c((overflow1 || overflow2) as u16);
        return 4;
    }

    #[verifier::rlimit(80)]
    fn ADC_A_HL(&mut self, bus: &mut Bus) -> (r: Option<u32>)
        requires
            old(bus)@.wf(),
        ensures
            final(bus)@.wf(),
            outcome(alu_hl(old(self)@, old(bus)@, 1), final(self)@, final(bus)@, r),
    {
        proof {
            reveal(alu);
            reveal(alu_hl);
        }
        let operand = bus.try_read(self.hl)?;
        let a = self.get_a();
        let carry = self.get_flag_c() as u8;
        let intermediate = a.wrapping_add(operand);
        let overflow1 = (a as u16) + (operand as u16) > 0xFF;
        let result = intermediate.wrapping_add(carry);
        let overflow2 = (intermediate as u16) + (carry as u16) > 0xFF;
        self.set_a(result);
        self.set_flag_z((result == 0) as u16);
        self.set_flag_n(0);
        proof {
            lemma_byte_bits(result, operand, 0);
        }
        let nibbles = (self.get_a() & 0xF) + (operand & 0xF);
        proof {
            lemma_byte_bits(result, operand, nibbles);
        }
        self.set_flag_h(((nibbles & 0x10) == 0x10) as u16);
        self.set_flag_c((overflow1 || overflow2) as u16);
        return Some(8);
    }

    #[verifier::rlimit(80)]
    fn ADC_A_n8(&mut self, bus: &mut Bus) -> (r: Option<u32>)
        requires
            old(bus)@.wf(),
        ensures
            final(bus)@.wf(),
            outcome(alu_imm(old(self)@, old(bus)@, 1), final(self)@, final(bus)@, r),
    {
        proof {
            reveal(alu);
            reveal(alu_imm);
        }
        let operand = self.read_n8(bus)?;
        let a = self.get_a();
        let carry = self.get_flag_c() as u8;
        let intermediate = a.wrapping_add(operand);
        let overflow1 = (a as u16) + (operand as u16) > 0xFF;
        let result = intermediate.wrapping_add(carry);
        let overflow2 = (intermediate as u16) + (carry as u16) > 0xFF;
        self.set_a(result);
        self.set_flag_z((result == 0) as u16);
        self.set_flag_n(0);
        proof {
            lemma_byte_bits(result, operand, 0);
        }
        let nibbles = (self.get_a() & 0xF) + (operand & 0xF);
        proof {
            lemma_byte_bits(result, operand, nibbles);
        }
        self.set_flag_h(((nibbles & 0x10) == 0x10) as u16);
        self.set_flag_c((overflow1 || overflow2) as u16);
        return Some(8);
    }

    #[verifier::rlimit(80)]
    fn SUB_A_r8(&mut self, reg: Register) -> (t: u32)
        ensures
            final(self)@ == alu(old(self)@, 2, old(self)@.reg8(reg.idx())),
            t == 4,
    {
        proof {
            reveal(alu);
        }
        let operand = self.get_reg(&reg);
        let a = self.get_a();
        let result = a.wrapping_sub(operand);
        let overflow = operand > a;
        self.set_a(result);
        self.set_flag_z((result == 0) as u16);
        self.set_flag_n(1);
        proof {
            lemma_byte_bits(result, operand, 0);
        }
        self.set_flag_h(((self.get_a() & 0xF) < (operand & 0xF)) as u16);
        self.set_flag_c(overflow as u16);
        return 4;
    }

    #[verifier::rlimit(80)]
    fn SUB_A_HL(&mut self, bus: &mut Bus) -> (r: Option<u32>)
        requires
            old(bus)@.wf(),
        ensures
            final(bus)@.wf(),
            outcome(alu_hl(old(self)@, old(bus)@, 2), final(self)@, final(bus)@, r),
    {
        proof {
            reveal(alu);
            reveal(alu_hl);
        }
        let operand = bus.try_read(self.hl)?;
        let a = self.get_a();
        let result = a.wrapping_sub(operand);
        let overflow = operand > a;
        self.set_a(result);
        self.set_flag_z((result == 0) as u16);
        self.set_flag_n(1);
        proof {
            lemma_byte_bits(result, operand, 0);
        }
        self.set_flag_h(((self.get_a() & 0xF) < (operand & 0xF)) as u16);
        self.set_flag_c(overflow as u16);
        return Some(8);
    }

    #[verifier::rlimit(80)]
    fn SUB_A_n8(&mut self, bus: &mut Bus) -> (r: Option<u32>)
        requires
            old(bus)@.wf(),
        ensures
            final(bus)@.wf(),
            outcome(alu_imm(old(self)@, old(bus)@, 2), final(self)@, final(bus)@, r),
    {
        proof {
            reveal(alu);
            reveal(alu_imm);
        }
        let operand = self.read_n8(bus)?;
        let a = self.get_a();
        let result = a.wrapping_sub(operand);
        let overflow = operand > a;
        self.set_a(result);
        self.set_flag_z((result == 0) as u16);
        self.set_flag_n(1);
        proof {
            lemma_byte_bits(result, operand, 0);
        }
        self.set_flag_h(((self.get_a() & 0xF) < (operand & 0xF)) as u16);
        self.set_flag_c(overflow as u16);
        return Some(8);
    }

    #[verifier::rlimit(80)]
    fn SBC_A_r8(&mut self, reg: Register) -> (t: u32)
        ensures
            final(self)@ == alu(old(self)@, 3, old(self)@.reg8(reg.idx())),
            t == 4,
    {
        proof {
            reveal(alu);
        }
        let operand = self.get_reg(&reg);
        let a = self.get_a();
        let carry = self.get_flag_c() as u8;
        let intermediate = a.wrapping_sub(operand);
        let overflow1 = operand > a;
        let result = intermediate.wrapping_sub(carry);
        let overflow2 = carry > intermediate;
        self.set_a(result);
        self.set_flag_z((result == 0) as u16);
        self.set_flag_n(1);
        proof {
            lemma_byte_bits(result, operand, 0);
        }
        self.set_flag_h(((self.get_a() & 0xF) < (operand & 0xF)) as u16);
        self.set_flag_c((overflow1 || overflow2) as u16);
        return 4;
    }

    #[verifier::rlimit(80)]
    fn SBC_A_HL(&mut self, bus: &mut Bus) -> (r: Option<u32>)
        requires
            old(bus)@.wf(),
        ensures
            final(bus)@.wf(),
            outcome(alu_hl(old(self)@, old(bus)@, 3), final(self)@, final(bus)@, r),
    {
        proof {
            reveal(alu);
            reveal(alu_hl);
        }
        let operand = bus.try_read(self.hl)?;
        let a = self.get_a();
        let carry = self.get_flag_c() as u8;
        let intermediate = a.wrapping_sub(operand);
        let overflow1 = operand > a;
        let result = intermediate.wrapping_sub(carry);
        let overflow2 = carry > intermediate;
        self.set_a(result);
        self.set_flag_z((result == 0) as u16);
        self.set_flag_n(1);
        proof {
            lemma_byte_bits(result, operand, 0);
        }
        self.set_flag_h(((self.get_a() & 0xF) < (operand & 0xF)) as u16);
        self.set_flag_c((overflow1 || overflow2) as u16);
        return Some(8);
    }

    #[verifier::rlimit(80)]
    fn SBC_A_n8(&mut self, bus: &mut Bus) -> (r: Option<u32>)
        requires
            old(bus)@.wf(),
        ensures
            final(bus)@.wf(),
            outcome(alu_imm(old(self)@, old(bus)@, 3), final(self)@, final(bus)@, r),
    {
        proof {
            reveal(alu);
            reveal(alu_imm);
        }
        let operand = self.read_n8(bus)?;
        let a = self.get_a();
        let carry = self.get_flag_c() as u8;
        let intermediate = a.wrapping_sub(operand);
        let overflow1 = operand > a;
        let result = intermediate.wrapping_sub(carry);
        let overflow2 = carry > intermediate;
        self.set_a(result);
        self.set_flag_z((result == 0) as u16);
        self.set_flag_n(1);
        proof {
            lemma_byte_bits(result, operand, 0);
        }
        self.set_flag_h(((self.get_a() & 0xF) < (operand & 0xF)) as u16);
        self.set_flag_c((overflow1 || overflow2) as u16);
        return Some(8);
    }

    fn POP_AF(&mut self, bus: &mut Bus) -> (r: Option<u32>)
        requires
            old(bus)@.wf(),
        ensures
            final(bus)@.wf(),
            outcome(pop_af(old(self)@, old(bus)@), final(self)@, final(bus)@, r),
    {
        proof {
            reveal(pop_af);
        }
        let flags = self.pop_byte(bus)?;
        let a = self.pop_byte(bus)?;
        proof {
            lemma_flag_byte(flags);
        }
        self.set_flag_z(((flags >> 7u8) & 1) as u16);
        self.set_flag_n(((flags >> 6u8) & 1) as u16);
        self.set_flag_h(((flags >> 5u8) & 1) as u16);
        self.set_flag_c(((flags >> 4u8) & 1) as u16);
        self.set_a(a);
        return Some(12);
    }

    fn POP_r16(&mut self, reg_16: Register_16, bus: &mut Bus) -> (r: Option<u32>)
        requires
            old(bus)@.wf(),
            reg_16 is BC || reg_16 is DE || reg_16 is HL,
        ensures
            final(bus)@.wf(),
            outcome(pop_pair(old(self)@, old(bus)@, reg_16.idx()), final(self)@, final(bus)@, r),
    {
        proof {
            reveal(pop_pair);
        }
        let low = self.pop_byte(bus)?;
        let high = self.pop_byte(bus)?;
        match reg_16 {
            BC => {
                self.set_b(high);
                self.set_c(low);
            },
            DE => {
                self.set_d(high);
                self.set_e(low);
            },
            HL => {
                self.set_h(high);
                self.set_l(low);
            },
            _ => {
                proof {
                    assert(false);
                }
            },
        }
        return Some(12);
    }

    fn PUSH_AF(&mut self, bus: &mut Bus) -> (r: Option<u32>)
        requires
            old(bus)@.wf(),
        ensures
            final(bus)@.wf(),
            outcome(push_af(old(self)@, old(bus)@), final(self)@, final(bus)@, r),
    {
        proof {
            reveal(push_af);
        }
        if !self.push_byte(self.get_a(), bus) {
            return None;
        }
        let z = self.get_flag_z();
        let n = self.get_flag_n();
        let h = self.get_flag_h();
        let c = self.get_flag_c();
        proof {
            lemma_word_arith(0, 0, 0, z, n, h, c);
        }
        if !self.push_byte(((z << 7u16) | (n << 6u16) | (h << 5u16) | (c << 4u16)) as u8, bus) {
            return None;
        }
        return Some(16);
    }

    fn PUSH_r16(&mut self, reg_16: Register_16, bus: &mut Bus) -> (r: Option<u32>)
        requires
            old(bus)@.wf(),
            reg_16 is BC || reg_16 is DE || reg_16 is HL,
        ensures
            final(bus)@.wf(),
            outcome(push_pair(old(self)@, old(bus)@, reg_16.idx()), final(self)@, final(bus)@, r),
    {
        proof {
            reveal(push_pair);
        }
        let data = match reg_16 {
            BC => (self.get_b(), self.get_c()),
            DE => (self.get_d(), self.get_e()),
            HL => (self.get_h(), self.get_l()),
            _ => {
                proof {
                    assert(false);
                }
                (0, 0)
            },
        };
        if !self.push_byte(data.0, bus) {
            return None;
        }
        if !self.push_byte(data.1, bus) {
            return None;
        }
        return Some(16);
    }

    fn JP_n16(&mut self, bus: &mut Bus) -> (r: Option<u32>)
        requires
            old(bus)@.wf(),
        ensures
            final(bus)@.wf(),
            outcome(jump_abs(old(self)@, old(bus)@), final(self)@, final(bus)@, r),
    {
        proof {
            reveal(jump_abs);
        }
        let addr = self.read_n16(bus)?;
        self.pc = addr;
        return Some(16);
    }

    fn flag_value(&mut self, flag: &Flag) -> (r: u16)
        ensures
            final(self)@ == old(self)@,
            r == match flag {
                Flag::Z => b2i(old(self)@.zf),
                Flag::C => b2i(old(self)@.cf),
            },
    {
        match flag {
            Flag::Z => self.get_flag_z(),
            Flag::C => self.get_flag_c(),
        }
    }

    fn JP_cc(&mut self, flag: Flag, condition: bool, bus: &mut Bus) -> (r: Option<u32>)
        requires
            old(bus)@.wf(),
        ensures
            final(bus)@.wf(),
            outcome(
                jump_abs_if(old(self)@, old(bus)@, cc_of(flag, condition)),
                final(self)@,
                final(bus)@,
                r,
            ),
    {
        proof {
            reveal(jump_abs_if);
        }
        let operand = self.flag_value(&flag);
        let addr = self.read_n16(bus)?;
        if operand == (condition as u16) {
            self.pc = addr;
            return Some(16);
        } else {
            return Some(12);
        }
    }

    fn JP_HL(&mut self) -> (t: u32)
        ensures
            final(self)@ == old(self)@.with_pc(old(self)@.hl),
            t == 4,
    {
        self.pc = self.hl;
        return 4;
    }

    fn JR_e8(&mut self, bus: &mut Bus) -> (r: Option<u32>)
        requires
            old(bus)@.wf(),
        ensures
            final(bus)@.wf(),
            outcome(jump_rel(old(self)@, old(bus)@), final(self)@, final(bus)@, r),
    {
        proof {
            reveal(jump_rel);
        }
        let byte = self.read_n8(bus)?;
        proof {
            lemma_offset(byte);
        }
        let offset: i8 = byte as i8;
        self.pc = self.pc.wrapping_add_signed(offset.into());
        return Some(12);
    }

    fn JR_cc_e8(&mut self, flag: Flag, condition: bool, bus: &mut Bus) -> (r: Option<u32>)
        requires
            old(bus)@.wf(),
        ensures
            final(bus)@.wf(),
            outcome(
                jump_rel_if(old(self)@, old(bus)@, cc_of(flag, condition)),
                final(self)@,
                final(bus)@,
                r,
            ),
    {
        proof {
            reveal(jump_rel_if);
        }
        let operand = self.flag_value(&flag);
        let byte = self.read_n8(bus)?;
        proof {
            lemma_offset(byte);
        }
        let offset: i8 = byte as i8;
        if operand == (condition as u16) {
            self.pc = self.pc.wrapping_add_signed(offset.into());
            return Some(12);
        } else {
            return Some(8);
        }
    }

    /// Pushes PC, high byte first.
    fn push_pc(&mut self, bus: &mut Bus) -> (ok: bool)
        requires
            old(bus)@.wf(),
        ensures
            final(bus)@.wf(),
            match push16(old(self)@, old(bus)@, old(self)@.pc) {
                Some((c, b)) => ok && final(self)@ == c && final(bus)@ == b,
                None => !ok,
            },
    {
        proof {
            lemma_word_arith(self.pc, 0, 0, 0, 0, 0, 0);
        }
        if !self.push_byte((self.pc >> 8u16) as u8, bus) {
            return false;
        }
        self.push_byte(self.pc as u8, bus)
    }

    fn CALL_n16(&mut self, bus: &mut Bus) -> (r: Option<u32>)
        requires
            old(bus)@.wf(),
        ensures
            final(bus)@.wf(),
            outcome(call(old(self)@, old(bus)@), final(self)@, final(bus)@, r),
    {
        proof {
            reveal(call);
            reveal(call_to);
        }
        let addr_low = self.read_n8(bus)?;
        let addr_high = self.read_n8(bus)?;
        if !self.push_pc(bus) {
            return None;
        }
        proof {
            lemma_word_arith(0, addr_high, addr_low, 0, 0, 0, 0);
        }
        self.pc = (addr_high as u16) << 8u16 | (addr_low as u16);
        return Some(24);
    }

    fn CALL_cc_n16(&mut self, flag: Flag, condition: bool, bus: &mut Bus) -> (r: Option<u32>)
        requires
            old(bus)@.wf(),
        ensures
            final(bus)@.wf(),
            outcome(
                call_if(old(self)@, old(bus)@, cc_of(flag, condition)),
                final(self)@,
                final(bus)@,
                r,
            ),
    {
        proof {
            reveal(call_if);
            reveal(call_to);
        }
        let operand = self.flag_value(&flag);
        let addr_low = self.read_n8(bus)?;
        let addr_high = self.read_n8(bus)?;
        if operand == (condition as u16) {
            if !self.push_pc(bus) {
                return None;
            }
            proof {
                lemma_word_arith(0, addr_high, addr_low, 0, 0, 0, 0);
            }
            self.pc = (addr_high as u16) << 8u16 | (addr_low as u16);
            return Some(24);
        } else {
            return Some(12);
        }
    }

    fn RET(&mut self, bus: &mut Bus) -> (r: Option<u32>)
        requires
            old(bus)@.wf(),
        ensures
            final(bus)@.wf(),
            outcome(ret_with(old(self)@, old(bus)@, 16), final(self)@, final(bus)@, r),
    {
        proof {
            reveal(ret_with);
        }
        let low = self.pop_byte(bus)?;
        let high = self.pop_byte(bus)?;
        proof {
            lemma_word_arith(0, high, low, 0, 0, 0, 0);
        }
        self.pc = (high as u16) << 8u16 | (low as u16);
        return Some(16);
    }

    fn RET_cc(&mut self, flag: Flag, condition: bool, bus: &mut Bus) -> (r: Option<u32>)
        requires
            old(bus)@.wf(),
        ensures
            final(bus)@.wf(),
            outcome(
                ret_if(old(self)@, old(bus)@, cc_of(flag, condition)),
                final(self)@,
                final(bus)@,
                r,
            ),
    {
        proof {
            reveal(ret_if);
            reveal(ret_with);
        }
        let operand = self.flag_value(&flag);
        if operand == (condition as u16) {
            let low = self.pop_byte(bus)?;
            let high = self.pop_byte(bus)?;
            proof {
                lemma_word_arith(0, high, low, 0, 0, 0, 0);
            }
            self.pc = (high as u16) << 8u16 | (low as u16);
            return Some(20);
        } else {
            return Some(8);
        }
    }

    fn RETI(&mut self, bus: &mut Bus) -> (r: Option<u32>)
        requires
            old(bus)@.wf(),
        ensures
            final(bus)@.wf(),
            outcome(reti(old(self)@, old(bus)@), final(self)@, final(bus)@, r),
    {
        proof {
            reveal(ret_with);
            reveal(reti);
        }
        self.EI();
        return self.RET(bus);
    }

    fn RST(&mut self, addr: u16, bus: &mut Bus) -> (r: Option<u32>)
        requires
            old(bus)@.wf(),
        ensures
            final(bus)@.wf(),
            outcome(call_to(old(self)@, old(bus)@, addr, 16), final(self)@, final(bus)@, r),
    {
        proof {
            reveal(call_to);
        }
        proof {
            lemma_word_arith(addr, 0, 0, 0, 0, 0, 0);
        }
        let addr_low = addr as u8;
        let addr_high = (addr >> 8u16) as u8;
        if !self.push_pc(bus) {
            return None;
        }
        proof {
            lemma_word_arith(0, addr_high, addr_low, 0, 0, 0, 0);
        }
        self.pc = (addr_high as u16) << 8u16 | (addr_low as u16);
        return Some(16);
    }

    fn EI(&mut self) -> (t: u32)
        ensures
            final(self)@ == (CpuView { ime: 1, ..old(self)@ }),
            t == 4,
    {
        self.ime = 1;
        return 4;
    }

    fn DI(&mut self) -> (t: u32)
        ensures
            final(self)@ == (CpuView { ime: 0, ..old(self)@ }),
            t == 4,
    {
        self.ime = 0;
        return 4;
    }

    fn STOP(&mut self) -> (r: Option<u32>)
        ensures
            match r {
                Some(t) => t == 0 && old(self)@.pc != 0xFFFF && final(self)@ == old(self)@.with_pc(
                    (old(self)@.pc + 1) as u16,
                ),
                None => old(self)@.pc == 0xFFFF,
            },
    {
        if self.pc == 0xFFFF {
            return None;
        }
        self.pc += 1;
        return Some(0);
    }

    fn SCF(&mut self) -> (t: u32)
        ensures
            final(self)@ == scf(old(self)@),
            t == 4,
    {
        proof {
            reveal(scf);
        }
        self.set_flag_n(0);
        self.set_flag_h(0);
        self.set_flag_c(1);
        return 4;
    }

    fn CCF(&mut self) -> (t: u32)
        ensures
            final(self)@ == ccf(old(self)@),
            t == 4,
    {
        proof {
            reveal(ccf);
        }
        self.set_flag_n(0);
        self.set_flag_h(0);
        let operand = self.get_flag_c();
        self.set_flag_c(1 - operand);
        return 4;
    }

    fn RLA(&mut self) -> (t: u32)
        ensures
            final(self)@ == rotate_a(old(self)@, 2),
            t == 4,
    {
        proof {
            reveal(rotate_a);
        }
        let operand = self.get_a();
        let shited_bit = operand >> 7u8;
        let carry = self.get_flag_c() as u8;
        proof {
            lemma_byte_bits(operand, 0, 0);
            lemma_rotate_left(operand, carry);
        }
        let result = (((operand << 1u8) | (operand >> 7u8)) & 0xFE) | carry;
        self.set_flag_z(0);
        self.set_flag_n(0);
        self.set_flag_h(0);
        self.set_flag_c(u16::from(shited_bit));
        self.set_a(result);
        return 4;
    }

    fn RRA(&mut self) -> (t: u32)
        ensures
            final(self)@ == rotate_a(old(self)@, 3),
            t == 4,
    {
        proof {
            reveal(rotate_a);
        }
        let operand = self.get_a();
        let shited_bit = operand & 1;
        let carry = self.get_flag_c() as u8;
        proof {
            lemma_byte_bits(operand, 0, 0);
            lemma_rotate_right(operand, carry);
        }
        let result = (((operand >> 1u8) | (operand << 7u8)) & 0x7F) | (carry << 7u8);
        self.set_flag_z(0);
        self.set_flag_n(0);
        self.set_flag_h(0);
        self.set_flag_c(u16::from(shited_bit));
        self.set_a(result);
        return 4;
    }

    fn RLCA(&mut self) -> (t: u32)
        ensures
            final(self)@ == rotate_a(old(self)@, 0),
            t == 4,
    {
        proof {
            reveal(rotate_a);
        }
        let operand = self.get_a();
        let shited_bit = operand >> 7u8;
        proof {
            lemma_byte_bits(operand, 0, 0);
            lemma_rotate_left(operand, 0);
        }
        let result = (operand << 1u8) | (operand >> 7u8);
        self.set_flag_z(0);
        self.set_flag_n(0);
        self.set_flag_h(0);
        self.set_flag_c(u16::from(shited_bit));
        self.set_a(result);
        return 4;
    }

    fn RRCA(&mut self) -> (t: u32)
        ensures
            final(self)@ == rotate_a(old(self)@, 1),
            t == 4,
    {
        proof {
            reveal(rotate_a);
        }
        let operand = self.get_a();
        let shited_bit = operand & 1;
        proof {
            lemma_byte_bits(operand, 0, 0);
            lemma_rotate_right(operand, 0);
        }
        let result = (operand >> 1u8) | (operand << 7u8);
        self.set_flag_z(0);
        self.set_flag_n(0);
        self.set_flag_h(0);
        self.set_flag_c(u16::from(shited_bit));
        self.set_a(result);
        return 4;
    }

    fn SRL_r8(&mut self, reg: Register) -> (t: u32)
        ensures
            final(self)@ == shift_reg(old(self)@, 7, reg.idx()),
            t == 8,
    {
        proof {
            reveal(shift_reg);
        }
        let operand = self.get_reg(&reg);
        let shited_bit = operand & 1;
        proof {
            lemma_byte_bits(operand, 0, 0);
        }
        let result = operand >> 1u8;
        self.set_flag_z((result == 0) as u16);
        self.set_flag_n(0);
        self.set_flag_h(0);
        self.set_flag_c(u16::from(shited_bit));
        self.set_reg(&reg, result);
        return 8;
    }

    fn SRL_HL(&mut self, bus: &mut Bus) -> (r: Option<u32>)
        requires
            old(bus)@.wf(),
        ensures
            final(bus)@.wf(),
            outcome(shift_hl(old(self)@, old(bus)@, 7), final(self)@, final(bus)@, r),
    {
        proof {
            reveal(shift_hl);
            reveal(store);
        }
        let operand = bus.try_read(self.hl)?;
        let shited_bit = operand & 1;
        proof {
            lemma_byte_bits(operand, 0, 0);
        }
        let result = operand >> 1u8;
        self.set_flag_z((result == 0) as u16);
        self.set_flag_n(0);
        self.set_flag_h(0);
        self.set_flag_c(u16::from(shited_bit));
        if !bus.try_write(self.hl, result) {
            return None;
        }
        return Some(16);
    }

    fn SLA_r8(&mut self, reg: Register) -> (t: u32)
        ensures
            final(self)@ == shift_reg(old(self)@, 4, reg.idx()),
            t == 8,
    {
        proof {
            reveal(shift_reg);
        }
        let operand = self.get_reg(&reg);
        let shited_bit = operand >> 7u8;
        proof {
            lemma_byte_bits(operand, 0, 0);
            lemma_rotate_left(operand, 0);
        }
        let result = operand << 1u8;
        self.set_flag_z((result == 0) as u16);
        self.set_flag_n(0);
        self.set_flag_h(0);
        self.set_flag_c(u16::from(shited_bit));
        self.set_reg(&reg, result);
        return 8;
    }

    fn SLA_HL(&mut self, bus: &mut Bus) -> (r: Option<u32>)
        requires
            old(bus)@.wf(),
        ensures
            final(bus)@.wf(),
            outcome(shift_hl(old(self)@, old(bus)@, 4), final(self)@, final(bus)@, r),
    {
        proof {
            reveal(shift_hl);
            reveal(store);
        }
        let operand = bus.try_read(self.hl)?;
        let shited_bit = operand >> 7u8;
        proof {
            lemma_byte_bits(operand, 0, 0);
            lemma_rotate_left(operand, 0);
        }
        let result = operand << 1u8;
        self.set_flag_z((result == 0) as u16);
        self.set_flag_n(0);
        self.set_flag_h(0);
        self.set_flag_c(u16::from(shited_bit));
        if !bus.try_write(self.hl, result) {
            return None;
        }
        return Some(16);
    }

    fn SRA_r8(&mut self, reg: Register) -> (t: u32)
        ensures
            final(self)@ == shift_reg(old(self)@, 5, reg.idx()),
            t == 8,
    {
        proof {
            reveal(shift_reg);
        }
        let operand = self.get_reg(&reg);
        let shited_bit = operand & 1;
        proof {
            lemma_byte_bits(operand, 0, 0);
            lemma_arithmetic_shift(operand);
        }
        let result = ((operand as i8) >> 1u8) as u8;
        self.set_flag_z((result == 0) as u16);
        self.set_flag_n(0);
        self.set_flag_h(0);
        self.set_flag_c(u16::from(shited_bit));
        self.set_reg(&reg, result);
        return 8;
    }

    fn SRA_HL(&mut self, bus: &mut Bus) -> (r: Option<u32>)
        requires
            old(bus)@.wf(),
        ensures
            final(bus)@.wf(),
            outcome(shift_hl(old(self)@, old(bus)@, 5), final(self)@, final(bus)@, r),
    {
        proof {
            reveal(shift_hl);
            reveal(store);
        }
        let operand = bus.try_read(self.hl)?;
        let shited_bit = operand & 1;
        proof {
            lemma_byte_bits(operand, 0, 0);
            lemma_arithmetic_shift(operand);
        }
        let result = ((operand as i8) >> 1u8) as u8;
        self.set_flag_z((result == 0) as u16);
        self.set_flag_n(0);
        self.set_flag_h(0);
        self.set_flag_c(u16::from(shited_bit));
        if !bus.try_write(self.hl, result) {
            return None;
        }
        return Some(8);
    }

    fn RR_r8(&mut self, reg: Register) -> (t: u32)
        ensures
            final(self)@ == shift_reg(old(self)@, 3, reg.idx()),
            t == 8,
    {
        proof {
            reveal(shift_reg);
        }
        let operand = self.get_reg(&reg);
        let shited_bit = operand & 1;
        let carry = self.get_flag_c() as u8;
        proof {
            lemma_byte_bits(operand, 0, 0);
            lemma_rotate_right(operand, carry);
        }
        let result = (((operand >> 1u8) | (operand << 7u8)) & 0x7F) | (carry << 7u8);
        self.set_flag_z((result == 0) as u16);
        self.set_flag_n(0);
        self.set_flag_h(0);
        self.set_flag_c(u16::from(shited_bit));
        self.set_reg(&reg, result);
        return 8;
    }

    fn RR_HL(&mut self, bus: &mut Bus) -> (r: Option<u32>)
        requires
            old(bus)@.wf(),
        ensures
            final(bus)@.wf(),
            outcome(shift_hl(old(self)@, old(bus)@, 3), final(self)@, final(bus)@, r),
    {
        proof {
            reveal(shift_hl);
            reveal(store);
        }
        let operand = bus.try_read(self.hl)?;
        let shited_bit = operand & 1;
        let carry = self.get_flag_c() as u8;
        proof {
            lemma_byte_bits(operand, 0, 0);
            lemma_rotate_right(operand, carry);
        }
        let result = (((operand >> 1u8) | (operand << 7u8)) & 0x7F) | (carry << 7u8);
        self.set_flag_z((result == 0) as u16);
        self.set_flag_n(0);
        self.set_flag_h(0);
        self.set_flag_c(u16::from(shited_bit));
        if !bus.try_write(self.hl, result) {
            return None;
        }
        return Some(16);
    }

    fn RRC_r8(&mut self, reg: Register) -> (t: u32)
        ensures
            final(self)@ == shift_reg(old(self)@, 1, reg.idx()),
            t == 8,
    {
        proof {
            reveal(shift_reg);
        }
        let operand = self.get_reg(&reg);
        let shited_bit = operand & 1;
        proof {
            lemma_byte_bits(operand, 0, 0);
            lemma_rotate_right(operand, 0);
        }
        let result = (operand >> 1u8) | (operand << 7u8);
        self.set_flag_z((result == 0) as u16);
        self.set_flag_n(0);
        self.set_flag_h(0);
        self.set_flag_c(u16::from(shited_bit));
        self.set_reg(&reg, result);
        return 8;
    }

    fn RRC_HL(&mut self, bus: &mut Bus) -> (r: Option<u32>)
        requires
            old(bus)@.wf(),
        ensures
            final(bus)@.wf(),
            outcome(shift_hl(old(self)@, old(bus)@, 1), final(self)@, final(bus)@, r),
    {
        proof {
            reveal(shift_hl);
            reveal(store);
        }
        let operand = bus.try_read(self.hl)?;
        let shited_bit = operand & 1;
        proof {
            lemma_byte_bits(operand, 0, 0);
            lemma_rotate_right(operand, 0);
        }
        let result = (operand >> 1u8) | (operand << 7u8);
        self.set_flag_z((result == 0) as u16);
        self.set_flag_n(0);
        self.set_flag_h(0);
        self.set_flag_c(u16::from(shited_bit));
        if !bus.try_write(self.hl, result) {
            return None;
        }
        return Some(16);
    }

    fn RL_r8(&mut self, reg: Register) -> (t: u32)
        ensures
            final(self)@ == shift_reg(old(self)@, 2, reg.idx()),
            t == 8,
    {
        proof {
            reveal(shift_reg);
        }
        let operand = self.get_reg(&reg);
        let shited_bit = operand >> 7u8;
        let carry = self.get_flag_c() as u8;
        proof {
            lemma_byte_bits(operand, 0, 0);
            lemma_rotate_left(operand, carry);
        }
        let result = (((operand << 1u8) | (operand >> 7u8)) & 0xFE) | carry;
        self.set_flag_z((result == 0) as u16);
        self.set_flag_n(0);
        self.set_flag_h(0);
        self.set_flag_c(u16::from(shited_bit));
        self.set_reg(&reg, result);
        return 8;
    }

    fn RL_HL(&mut self, bus: &mut Bus) -> (r: Option<u32>)
        requires
            old(bus)@.wf(),
        ensures
            final(bus)@.wf(),
            outcome(shift_hl(old(self)@, old(bus)@, 2), final(self)@, final(bus)@, r),
    {
        proof {
            reveal(shift_hl);
            reveal(store);
        }
        let operand = bus.try_read(self.hl)?;
        let shited_bit = operand >> 7u8;
        let carry = self.get_flag_c() as u8;
        proof {
            lemma_byte_bits(operand, 0, 0);
            lemma_rotate_left(operand, carry);
        }
        let result = (((operand << 1u8) | (operand >> 7u8)) & 0xFE) | carry;
        self.set_flag_z((result == 0) as u16);
        self.set_flag_n(0);
        self.set_flag_h(0);
        self.set_flag_c(u16::from(shited_bit));
        if !bus.try_write(self.hl, result) {
            return None;
        }
        return Some(16);
    }

    fn RLC_r8(&mut self, reg: Register) -> (t: u32)
        ensures
            final(self)@ == shift_reg(old(self)@, 0, reg.idx()),
            t == 8,
    {
        proof {
            reveal(shift_reg);
        }
        let operand = self.get_reg(&reg);
        let shited_bit = operand >> 7u8;
        proof {
            lemma_byte_bits(operand, 0, 0);
            lemma_rotate_left(operand, 0);
        }
        let result = (operand << 1u8) | (operand >> 7u8);
        self.set_flag_z((result == 0) as u16);
        self.set_flag_n(0);
        self.set_flag_h(0);
        self.set_flag_c(u16::from(shited_bit));
        self.set_reg(&reg, result);
        return 8;
    }

    fn RLC_HL(&mut self, bus: &mut Bus) -> (r: Option<u32>)
        requires
            old(bus)@.wf(),
        ensures
            final(bus)@.wf(),
            outcome(shift_hl(old(self)@, old(bus)@, 0), final(self)@, final(bus)@, r),
    {
        proof {
            reveal(shift_hl);
            reveal(store);
        }
        let operand = bus.try_read(self.hl)?;
        let shited_bit = operand >> 7u8;
        proof {
            lemma_byte_bits(operand, 0, 0);
            lemma_rotate_left(operand, 0);
        }
        let result = (operand << 1u8) | (operand >> 7u8);
        self.set_flag_z((result == 0) as u16);
        self.set_flag_n(0);
        self.set_flag_h(0);
        self.set_flag_c(u16::from(shited_bit));
        if !bus.try_write(self.hl, result) {
            return None;
        }
        return Some(16);
    }

    fn SWAP_r8(&mut self, reg: Register) -> (t: u32)
        ensures
            final(self)@ == shift_reg(old(self)@, 6, reg.idx()),
            t == 8,
    {
        proof {
            reveal(shift_reg);
        }
        let operand = self.get_reg(&reg);
        proof {
            lemma_swap_nibbles(operand);
        }
        let result = (operand << 4u8) | (operand >> 4u8);
        self.set_reg(&reg, result);
        self.set_flag_z((result == 0) as u16);
        self.set_flag_n(0);
        self.set_flag_h(0);
        self.set_flag_c(0);
        return 8;
    }

    fn SWAP_HL(&mut self, bus: &mut Bus) -> (r: Option<u32>)
        requires
            old(bus)@.wf(),
        ensures
            final(bus)@.wf(),
            outcome(shift_hl(old(self)@, old(bus)@, 6), final(self)@, final(bus)@, r),
    {
        proof {
            reveal(shift_hl);
            reveal(store);
        }
        let operand = bus.try_read(self.hl)?;
        proof {
            lemma_swap_nibbles(operand);
        }
        let result = (operand << 4u8) | (operand >> 4u8);
        if !bus.try_write(self.hl, result) {
            return None;
        }
        self.set_flag_z((result == 0) as u16);
        self.set_flag_n(0);
        self.set_flag_h(0);
        self.set_flag_c(0);
        return Some(16);
    }

    fn BIT_u3_r8(&mut self, offset: u8, reg: Register) -> (t: u32)
        requires
            offset <= 7,
        ensures
            final(self)@ == bit_test(old(self)@, offset as int, old(self)@.reg8(reg.idx())),
            t == 8,
    {
        proof {
            reveal(bit_test);
        }
        let register = self.get_reg(&reg);
        let bit = (register >> offset) & 0x1;
        proof {
            lemma_byte_bits(register >> offset, 0, 0);
        }
        self.set_flag_z((bit == 0) as u16);
        self.set_flag_n(0);
        self.set_flag_h(1);
        return 8;
    }

    fn BIT_u3_HL(&mut self, offset: u8, bus: &mut Bus) -> (r: Option<u32>)
        requires
            old(bus)@.wf(),
            offset <= 7,
        ensures
            final(bus)@.wf(),
            outcome(bit_hl(old(self)@, old(bus)@, offset as int), final(self)@, final(bus)@, r),
    {
        proof {
            reveal(bit_hl);
            reveal(bit_test);
        }
        let register = bus.try_read(self.hl)?;
        let bit = (register >> offset) & 0x1;
        proof {
            lemma_byte_bits(register >> offset, 0, 0);
        }
        self.set_flag_z((bit == 0) as u16);
        self.set_flag_n(0);
        self.set_flag_h(1);
        return Some(12);
    }

    fn RES_u3_r8(&mut self, offset: u8, reg: Register) -> (t: u32)
        requires
            offset <= 7,
        ensures
            final(self)@ == old(self)@.with_reg8(
                reg.idx(),
                res_bit(old(self)@.reg8(reg.idx()), offset as int),
            ),
            t == 8,
    {
        proof {
            reveal(res_bit);
        }
        let value = self.get_reg(&reg) & !(1u8 << offset);
        self.set_reg(&reg, value);
        return 8;
    }

    fn RES_u3_HL(&mut self, offset: u8, bus: &mut Bus) -> (r: Option<u32>)
        requires
            old(bus)@.wf(),
            offset <= 7,
        ensures
            final(bus)@.wf(),
            outcome(res_hl(old(self)@, old(bus)@, offset as int), final(self)@, final(bus)@, r),
    {
        proof {
            reveal(res_bit);
            reveal(res_hl);
            reveal(store);
        }
        let value = bus.try_read(self.hl)? & !(1u8 << offset);
        if !bus.try_write(self.hl, value) {
            return None;
        }
        return Some(16);
    }

    fn SET_u3_r8(&mut self, offset: u8, reg: Register) -> (t: u32)
        requires
            offset <= 7,
        ensures
            final(self)@ == old(self)@.with_reg8(
                reg.idx(),
                set_bit(old(self)@.reg8(reg.idx()), offset as int),
            ),
            t == 8,
    {
        proof {
            reveal(set_bit);
        }
        let value = self.get_reg(&reg) | (1u8 << offset);
        self.set_reg(&reg, value);
        return 8;
    }

    fn SET_u3_HL(&mut self, offset: u8, bus: &mut Bus) -> (r: Option<u32>)
        requires
            old(bus)@.wf(),
            offset <= 7,
        ensures
            final(bus)@.wf(),
            outcome(set_hl(old(self)@, old(bus)@, offset as int), final(self)@, final(bus)@, r),
    {
        proof {
            reveal(set_bit);
            reveal(set_hl);
            reveal(store);
        }
        let value = bus.try_read(self.hl)? | (1u8 << offset);
        if !bus.try_write(self.hl, value) {
            return None;
        }
        return Some(16);
    }

    /// The opcodes 0x00..=0x0F.
    #[verifier::rlimit(80)]
    fn row_0(&mut self, op: u8, bus: &mut Bus) -> (r: Option<u32>)
        requires
            old(bus)@.wf(),
            op / 16 == 0,
        ensures
            final(bus)@.wf(),
            outcome(sm83::exec(op, old(self)@, old(bus)@), final(self)@, final(bus)@, r),
    {
        proof {
            reveal(sm83::exec_block0);
        }
        match op {
            0x00 => Some(Self::NOP()),
            0x01 => self.LD_r16_n16(BC, bus),
            0x02 => self.LD_a16_r8(BC, A, bus),
            0x03 => Some(self.INC_r16(BC)),
            0x04 => Some(self.INC_r8(B)),
            0x05 => Some(self.DEC_r8(B)),
            0x06 => self.LD_r8_n8(B, bus),
            0x07 => Some(self.RLCA()),
            0x08 => self.LD_a16_SP(bus),
            0x09 => Some(self.ADD_HL_r16(BC)),
            0x0A => self.LD_r8_a16(A, BC, bus),
            0x0B => Some(self.DEC_r16(BC)),
            0x0C => Some(self.INC_r8(C)),
            0x0D => Some(self.DEC_r8(C)),
            0x0E => self.LD_r8_n8(C, bus),
            0x0F => Some(self.RRCA()),
            _ => None,
        }
    }

    /// The opcodes 0x10..=0x1F.
    #[verifier::rlimit(80)]
    fn row_1(&mut self, op: u8, bus: &mut Bus) -> (r: Option<u32>)
        requires
            old(bus)@.wf(),
            op / 16 == 1,
        ensures
            final(bus)@.wf(),
            outcome(sm83::exec(op, old(self)@, old(bus)@), final(self)@, final(bus)@, r),
    {
        proof {
            reveal(sm83::exec_block0);
        }
        match op {
            0x10 => self.STOP(),
            0x11 => self.LD_r16_n16(DE, bus),
            0x12 => self.LD_a16_r8(DE, A, bus),
            0x13 => Some(self.INC_r16(DE)),
            0x14 => Some(self.INC_r8(D)),
            0x15 => Some(self.DEC_r8(D)),
            0x16 => self.LD_r8_n8(D, bus),
            0x17 => Some(self.RLA()),
            0x18 => self.JR_e8(bus),
            0x19 => Some(self.ADD_HL_r16(DE)),
            0x1A => self.LD_r8_a16(A, DE, bus),
            0x1B => Some(self.DEC_r16(DE)),
            0x1C => Some(self.INC_r8(E)),
            0x1D => Some(self.DEC_r8(E)),
            0x1E => self.LD_r8_n8(E, bus),
            0x1F => Some(self.RRA()),
            _ => None,
        }
    }

    /// The opcodes 0x20..=0x2F.
    #[verifier::rlimit(80)]
    fn row_2(&mut self, op: u8, bus: &mut Bus) -> (r: Option<u32>)
        requires
            old(bus)@.wf(),
            op / 16 == 2,
        ensures
            final(bus)@.wf(),
            outcome(sm83::exec(op, old(self)@, old(bus)@), final(self)@, final(bus)@, r),
    {
        proof {
            reveal(sm83::exec_block0);
        }
        match op {
            0x20 => self.JR_cc_e8(Flag::Z, false, bus),
            0x21 => self.LD_r16_n16(HL, bus),
            0x22 => self.LD_HLI_A(bus),
            0x23 => Some(self.INC_r16(HL)),
            0x24 => Some(self.INC_r8(H)),
            0x25 => Some(self.DEC_r8(H)),
            0x26 => self.LD_r8_n8(H, bus),
            0x27 => Some(self.DAA()),
            0x28 => self.JR_cc_e8(Flag::Z, true, bus),
            0x29 => Some(self.ADD_HL_r16(HL)),
            0x2A => self.LD_A_HLI(bus),
            0x2B => Some(self.DEC_r16(HL)),
            0x2C => Some(self.INC_r8(L)),
            0x2D => Some(self.DEC_r8(L)),
            0x2E => self.LD_r8_n8(L, bus),
            0x2F => Some(self.CPL()),
            _ => None,
        }
    }

    /// The opcodes 0x30..=0x3F.
    #[verifier::rlimit(80)]
    fn row_3(&mut self, op: u8, bus: &mut Bus) -> (r: Option<u32>)
        requires
            old(bus)@.wf(),
            op / 16 == 3,
        ensures
            final(bus)@.wf(),
            outcome(sm83::exec(op, old(self)@, old(bus)@), final(self)@, final(bus)@, r),
    {
        proof {
            reveal(sm83::exec_block0);
        }
        match op {
            0x30 => self.JR_cc_e8(Flag::C, false, bus),
            0x31 => self.LD_r16_n16(SP, bus),
            0x32 => self.LD_HLD_A(bus),
            0x33 => Some(self.INC_r16(SP)),
            0x34 => self.INC_HL(bus),
            0x35 => self.DEC_HL(bus),
            0x36 => self.LD_a16_n8(HL, bus),
            0x37 => Some(self.SCF()),
            0x38 => self.JR_cc_e8(Flag::C, true, bus),
            0x39 => Some(self.ADD_HL_r16(SP)),
            0x3A => self.LD_A_HLD(bus),
            0x3B => Some(self.DEC_r16(SP)),
            0x3C => Some(self.INC_r8(A)),
            0x3D => Some(self.DEC_r8(A)),
            0x3E => self.LD_r8_n8(A, bus),
            0x3F => Some(self.CCF()),
            _ => None,
        }
    }

    /// The opcodes 0x40..=0x4F.
    #[verifier::rlimit(80)]
    fn row_4(&mut self, op: u8, bus: &mut Bus) -> (r: Option<u32>)
        requires
            old(bus)@.wf(),
            op / 16 == 4,
        ensures
            final(bus)@.wf(),
            outcome(sm83::exec(op, old(self)@, old(bus)@), final(self)@, final(bus)@, r),
    {
        proof {
            reveal(sm83::exec_block1);
        }
        match op {
            0x40 => Some(self.LD_r8_r8(B, B)),
            0x41 => Some(self.LD_r8_r8(B, C)),
            0x42 => Some(self.LD_r8_r8(B, D)),
            0x43 => Some(self.LD_r8_r8(B, E)),
            0x44 => Some(self.LD_r8_r8(B, H)),
            0x45 => Some(self.LD_r8_r8(B, L)),
            0x46 => self.LD_r8_a16(B, HL, bus),
            0x47 => Some(self.LD_r8_r8(B, A)),
            0x48 => Some(self.LD_r8_r8(C, B)),
            0x49 => Some(self.LD_r8_r8(C, C)),
            0x4A => Some(self.LD_r8_r8(C, D)),
            0x4B => Some(self.LD_r8_r8(C, E)),
            0x4C => Some(self.LD_r8_r8(C, H)),
            0x4D => Some(self.LD_r8_r8(C, L)),
            0x4E => self.LD_r8_a16(C, HL, bus),
            0x4F => Some(self.LD_r8_r8(C, A)),
            _ => None,
        }
    }

    /// The opcodes 0x50..=0x5F.
    #[verifier::rlimit(80)]
    fn row_5(&mut self, op: u8, bus: &mut Bus) -> (r: Option<u32>)
        requires
            old(bus)@.wf(),
            op / 16 == 5,
        ensures
            final(bus)@.wf(),
            outcome(sm83::exec(op, old(self)@, old(bus)@), final(self)@, final(bus)@, r),
    {
        proof {
            reveal(sm83::exec_block1);
        }
        match op {
            0x50 => Some(self.LD_r8_r8(D, B)),
            0x51 => Some(self.LD_r8_r8(D, C)),
            0x52 => Some(self.LD_r8_r8(D, D)),
            0x53 => Some(self.LD_r8_r8(D, E)),
            0x54 => Some(self.LD_r8_r8(D, H)),
            0x55 => Some(self.LD_r8_r8(D, L)),
            0x56 => self.LD_r8_a16(D, HL, bus),
            0x57 => Some(self.LD_r8_r8(D, A)),
            0x58 => Some(self.LD_r8_r8(E, B)),
            0x59 => Some(self.LD_r8_r8(E, C)),
            0x5A => Some(self.LD_r8_r8(E, D)),
            0x5B => Some(self.LD_r8_r8(E, E)),
            0x5C => Some(self.LD_r8_r8(E, H)),
            0x5D => Some(self.LD_r8_r8(E, L)),
            0x5E => self.LD_r8_a16(E, HL, bus),
            0x5F => Some(self.LD_r8_r8(E, A)),
            _ => None,
        }
    }

    /// The opcodes 0x60..=0x6F.
    #[verifier::rlimit(80)]
    fn row_6(&mut self, op: u8, bus: &mut Bus) -> (r: Option<u32>)
        requires
            old(bus)@.wf(),
            op / 16 == 6,
        ensures
            final(bus)@.wf(),
            outcome(sm83::exec(op, old(self)@, old(bus)@), final(self)@, final(bus)@, r),
    {
        proof {
            reveal(sm83::exec_block1);
        }
        match op {
            0x60 => Some(self.LD_r8_r8(H, B)),
            0x61 => Some(self.LD_r8_r8(H, C)),
            0x62 => Some(self.LD_r8_r8(H, D)),
            0x63 => Some(self.LD_r8_r8(H, E)),
            0x64 => Some(self.LD_r8_r8(H, H)),
            0x65 => Some(self.LD_r8_r8(H, L)),
            0x66 => self.LD_r8_a16(H, HL, bus),
            0x67 => Some(self.LD_r8_r8(H, A)),
            0x68 => Some(self.LD_r8_r8(L, B)),
            0x69 => Some(self.LD_r8_r8(L, C)),
            0x6A => Some(self.LD_r8_r8(L, D)),
            0x6B => Some(self.LD_r8_r8(L, E)),
            0x6C => Some(self.LD_r8_r8(L, H)),
            0x6D => Some(self.LD_r8_r8(L, L)),
            0x6E => self.LD_r8_a16(L, HL, bus),
            0x6F => Some(self.LD_r8_r8(L, A)),
            _ => None,
        }
    }

    /// The opcodes 0x70..=0x7F.
    #[verifier::rlimit(80)]
    fn row_7(&mut self, op: u8, bus: &mut Bus) -> (r: Option<u32>)
        requires
            old(bus)@.wf(),
            op / 16 == 7,
        ensures
            final(bus)@.wf(),
            outcome(sm83::exec(op, old(self)@, old(bus)@), final(self)@, final(bus)@, r),
    {
        proof {
            reveal(sm83::exec_block1);
        }
        match op {
            0x70 => self.LD_a16_r8(HL, B, bus),
            0x71 => self.LD_a16_r8(HL, C, bus),
            0x72 => self.LD_a16_r8(HL, D, bus),
            0x73 => self.LD_a16_r8(HL, E, bus),
            0x74 => self.LD_a16_r8(HL, H, bus),
            0x75 => self.LD_a16_r8(HL, L, bus),
            0x77 => self.LD_a16_r8(HL, A, bus),
            0x78 => Some(self.LD_r8_r8(A, B)),
            0x79 => Some(self.LD_r8_r8(A, C)),
            0x7A => Some(self.LD_r8_r8(A, D)),
            0x7B => Some(self.LD_r8_r8(A, E)),
            0x7C => Some(self.LD_r8_r8(A, H)),
            0x7D => Some(self.LD_r8_r8(A, L)),
            0x7E => self.LD_r8_a16(A, HL, bus),
            0x7F => Some(self.LD_r8_r8(A, A)),
            _ => None,
        }
    }

    /// The opcodes 0x80..=0x8F.
    #[verifier::rlimit(80)]
    fn row_8(&mut self, op: u8, bus: &mut Bus) -> (r: Option<u32>)
        requires
            old(bus)@.wf(),
            op / 16 == 8,
        ensures
            final(bus)@.wf(),
            outcome(sm83::exec(op, old(self)@, old(bus)@), final(self)@, final(bus)@, r),
    {
        proof {
            reveal(sm83::exec_block2);
        }
        match op {
            0x80 => Some(self.ADD_A_r8(B)),
            0x81 => Some(self.ADD_A_r8(C)),
            0x82 => Some(self.ADD_A_r8(D)),
            0x83 => Some(self.ADD_A_r8(E)),
            0x84 => Some(self.ADD_A_r8(H)),
            0x85 => Some(self.ADD_A_r8(L)),
            0x86 => self.ADD_A_HL(bus),
            0x87 => Some(self.ADD_A_r8(A)),
            0x88 => Some(self.ADC_A_r8(B)),
            0x89 => Some(self.ADC_A_r8(C)),
            0x8A => Some(self.ADC_A_r8(D)),
            0x8B => Some(self.ADC_A_r8(E)),
            0x8C => Some(self.ADC_A_r8(H)),
            0x8D => Some(self.ADC_A_r8(L)),
            0x8E => self.ADC_A_HL(bus),
            0x8F => Some(self.ADC_A_r8(A)),
            _ => None,
        }
    }

    /// The opcodes 0x90..=0x9F.
    #[verifier::rlimit(80)]
    fn row_9(&mut self, op: u8, bus: &mut Bus) -> (r: Option<u32>)
        requires
            old(bus)@.wf(),
            op / 16 == 9,
        ensures
            final(bus)@.wf(),
            outcome(sm83::exec(op, old(self)@, old(bus)@), final(self)@, final(bus)@, r),
    {
        proof {
            reveal(sm83::exec_block2);
        }
        match op {
            0x90 => Some(self.SUB_A_r8(B)),
            0x91 => Some(self.SUB_A_r8(C)),
            0x92 => Some(self.SUB_A_r8(D)),
            0x93 => Some(self.SUB_A_r8(E)),
            0x94 => Some(self.SUB_A_r8(H)),
            0x95 => Some(self.SUB_A_r8(L)),
            0x96 => self.SUB_A_HL(bus),
            0x97 => Some(self.SUB_A_r8(A)),
            0x98 => Some(self.SBC_A_r8(B)),
            0x99 => Some(self.SBC_A_r8(C)),
            0x9A => Some(self.SBC_A_r8(D)),
            0x9B => Some(self.SBC_A_r8(E)),
            0x9C => Some(self.SBC_A_r8(H)),
            0x9D => Some(self.SBC_A_r8(L)),
            0x9E => self.SBC_A_HL(bus),
            0x9F => Some(self.SBC_A_r8(A)),
            _ => None,
        }
    }

    /// The opcodes 0xA0..=0xAF.
    #[verifier::rlimit(80)]
    fn row_a(&mut self, op: u8, bus: &mut Bus) -> (r: Option<u32>)
        requires
            old(bus)@.wf(),
            op / 16 == 10,
        ensures
            final(bus)@.wf(),
            outcome(sm83::exec(op, old(self)@, old(bus)@), final(self)@, final(bus)@, r),
    {
        proof {
            reveal(sm83::exec_block2);
        }
        match op {
            0xA0 => Some(self.AND_A_r8(B)),
            0xA1 => Some(self.AND_A_r8(C)),
            0xA2 => Some(self.AND_A_r8(D)),
            0xA3 => Some(self.AND_A_r8(E)),
            0xA4 => Some(self.AND_A_r8(H)),
            0xA5 => Some(self.AND_A_r8(L)),
            0xA6 => self.AND_A_HL(bus),
            0xA7 => Some(self.AND_A_r8(A)),
            0xA8 => Some(self.XOR_A_r8(B)),
            0xA9 => Some(self.XOR_A_r8(C)),
            0xAA => Some(self.XOR_A_r8(D)),
            0xAB => Some(self.XOR_A_r8(E)),
            0xAC => Some(self.XOR_A_r8(H)),
            0xAD => Some(self.XOR_A_r8(L)),
            0xAE => self.XOR_A_HL(bus),
            0xAF => Some(self.XOR_A_r8(A)),
            _ => None,
        }
    }

    /// The opcodes 0xB0..=0xBF.
    #[verifier::rlimit(80)]
    fn row_b(&mut self, op: u8, bus: &mut Bus) -> (r: Option<u32>)
        requires
            old(bus)@.wf(),
            op / 16 == 11,
        ensures
            final(bus)@.wf(),
            outcome(sm83::exec(op, old(self)@, old(bus)@), final(self)@, final(bus)@, r),
    {
        proof {
            reveal(sm83::exec_block2);
        }
        match op {
            0xB0 => Some(self.OR_A_r8(B)),
            0xB1 => Some(self.OR_A_r8(C)),
            0xB2 => Some(self.OR_A_r8(D)),
            0xB3 => Some(self.OR_A_r8(E)),
            0xB4 => Some(self.OR_A_r8(H)),
            0xB5 => Some(self.OR_A_r8(L)),
            0xB6 => self.OR_A_HL(bus),
            0xB7 => Some(self.OR_A_r8(A)),
            0xB8 => Some(self.CP_A_r8(B)),
            0xB9 => Some(self.CP_A_r8(C)),
            0xBA => Some(self.CP_A_r8(D)),
            0xBB => Some(self.CP_A_r8(E)),
            0xBC => Some(self.CP_A_r8(H)),
            0xBD => Some(self.CP_A_r8(L)),
            0xBE => self.CP_A_HL(bus),
            0xBF => Some(self.CP_A_r8(A)),
            _ => None,
        }
    }

    /// The opcodes 0xC0..=0xCF.
    #[verifier::rlimit(80)]
    fn row_c(&mut self, op: u8, bus: &mut Bus) -> (r: Option<u32>)
        requires
            old(bus)@.wf(),
            op / 16 == 12,
        ensures
            final(bus)@.wf(),
            outcome(sm83::exec(op, old(self)@, old(bus)@), final(self)@, final(bus)@, r),
    {
        proof {
            reveal(sm83::exec_block3);
        }
        match op {
            0xC0 => self.RET_cc(Flag::Z, false, bus),
            0xC1 => self.POP_r16(BC, bus),
            0xC2 => self.JP_cc(Flag::Z, false, bus),
            0xC3 => self.JP_n16(bus),
            0xC4 => self.CALL_cc_n16(Flag::Z, false, bus),
            0xC5 => self.PUSH_r16(BC, bus),
            0xC6 => self.ADD_A_n8(bus),
            0xC7 => self.RST(0x00, bus),
            0xC8 => self.RET_cc(Flag::Z, true, bus),
            0xC9 => self.RET(bus),
            0xCA => self.JP_cc(Flag::Z, true, bus),
            0xCB => self.prefix(bus),
            0xCC => self.CALL_cc_n16(Flag::Z, true, bus),
            0xCD => self.CALL_n16(bus),
            0xCE => self.ADC_A_n8(bus),
            0xCF => self.RST(0x08, bus),
            _ => None,
        }
    }

    /// The opcodes 0xD0..=0xDF.
    #[verifier::rlimit(80)]
    fn row_d(&mut self, op: u8, bus: &mut Bus) -> (r: Option<u32>)
        requires
            old(bus)@.wf(),
            op / 16 == 13,
        ensures
            final(bus)@.wf(),
            outcome(sm83::exec(op, old(self)@, old(bus)@), final(self)@, final(bus)@, r),
    {
        proof {
            reveal(sm83::exec_block3);
        }
        match op {
            0xD0 => self.RET_cc(Flag::C, false, bus),
            0xD1 => self.POP_r16(DE, bus),
            0xD2 => self.JP_cc(Flag::C, false, bus),
            0xD4 => self.CALL_cc_n16(Flag::C, false, bus),
            0xD5 => self.PUSH_r16(DE, bus),
            0xD6 => self.SUB_A_n8(bus),
            0xD7 => self.RST(0x10, bus),
            0xD8 => self.RET_cc(Flag::C, true, bus),
            0xD9 => self.RETI(bus),
            0xDA => self.JP_cc(Flag::C, true, bus),
            0xDC => self.CALL_cc_n16(Flag::C, true, bus),
            0xDE => self.SBC_A_n8(bus),
            0xDF => self.RST(0x18, bus),
            _ => None,
        }
    }

    /// The opcodes 0xE0..=0xEF.
    #[verifier::rlimit(80)]
    fn row_e(&mut self, op: u8, bus: &mut Bus) -> (r: Option<u32>)
        requires
            old(bus)@.wf(),
            op / 16 == 14,
        ensures
            final(bus)@.wf(),
            outcome(sm83::exec(op, old(self)@, old(bus)@), final(self)@, final(bus)@, r),
    {
        proof {
            reveal(sm83::exec_block3);
        }
        match op {
            0xE0 => self.LDH_n16_A(bus),
            0xE1 => self.POP_r16(HL, bus),
            0xE2 => self.LDH_C_A(bus),
            0xE5 => self.PUSH_r16(HL, bus),
            0xE6 => self.AND_A_n8(bus),
            0xE7 => self.RST(0x20, bus),
            0xE8 => self.ADD_SP_e8(bus),
            0xE9 => Some(self.JP_HL()),
            0xEA => self.LD_n16_A(bus),
            0xEE => self.XOR_A_n8(bus),
            0xEF => self.RST(0x28, bus),
            _ => None,
        }
    }

    /// The opcodes 0xF0..=0xFF.
    #[verifier::rlimit(80)]
    fn row_f(&mut self, op: u8, bus: &mut Bus) -> (r: Option<u32>)
        requires
            old(bus)@.wf(),
            op / 16 == 15,
        ensures
            final(bus)@.wf(),
            outcome(sm83::exec(op, old(self)@, old(bus)@), final(self)@, final(bus)@, r),
    {
        proof {
            reveal(sm83::exec_block3);
        }
        match op {
            0xF0 => self.LDH_A_n16(bus),
            0xF1 => self.POP_AF(bus),
            0xF2 => self.LDH_A_C(bus),
            0xF3 => Some(self.DI()),
            0xF5 => self.PUSH_AF(bus),
            0xF6 => self.OR_A_n8(bus),
            0xF7 => self.RST(0x30, bus),
            0xF8 => self.LD_HL_SP_e8(bus),
            0xF9 => Some(self.LD_SP_HL()),
            0xFA => self.LD_A_n16(bus),
            0xFB => Some(self.EI()),
            0xFE => self.CP_A_n8(bus),
            0xFF => self.RST(0x38, bus),
            _ => None,
        }
    }

    /// The prefixed opcodes 0x00..=0x0F.
    #[verifier::rlimit(80)]
    fn prefix_row_0(&mut self, op: u8, bus: &mut Bus) -> (r: Option<u32>)
        requires
            old(bus)@.wf(),
            op / 16 == 0,
        ensures
            final(bus)@.wf(),
            outcome(exec_prefixed(op, old(self)@, old(bus)@), final(self)@, final(bus)@, r),
    {
        proof {
            reveal(exec_prefixed);
        }
        match op {
            0x00 => Some(self.RLC_r8(B)),
            0x01 => Some(self.RLC_r8(C)),
            0x02 => Some(self.RLC_r8(D)),
            0x03 => Some(self.RLC_r8(E)),
            0x04 => Some(self.RLC_r8(H)),
            0x05 => Some(self.RLC_r8(L)),
            0x06 => self.RLC_HL(bus),
            0x07 => Some(self.RLC_r8(A)),
            0x08 => Some(self.RRC_r8(B)),
            0x09 => Some(self.RRC_r8(C)),
            0x0A => Some(self.RRC_r8(D)),
            0x0B => Some(self.RRC_r8(E)),
            0x0C => Some(self.RRC_r8(H)),
            0x0D => Some(self.RRC_r8(L)),
            0x0E => self.RRC_HL(bus),
            0x0F => Some(self.RRC_r8(A)),
            _ => None,
        }
    }

    /// The prefixed opcodes 0x10..=0x1F.
    #[verifier::rlimit(80)]
    fn prefix_row_1(&mut self, op: u8, bus: &mut Bus) -> (r: Option<u32>)
        requires
            old(bus)@.wf(),
            op / 16 == 1,
        ensures
            final(bus)@.wf(),
            outcome(exec_prefixed(op, old(self)@, old(bus)@), final(self)@, final(bus)@, r),
    {
        proof {
            reveal(exec_prefixed);
        }
        match op {
            0x10 => Some(self.RL_r8(B)),
            0x11 => Some(self.RL_r8(C)),
            0x12 => Some(self.RL_r8(D)),
            0x13 => Some(self.RL_r8(E)),
            0x14 => Some(self.RL_r8(H)),
            0x15 => Some(self.RL_r8(L)),
            0x16 => self.RL_HL(bus),
            0x17 => Some(self.RL_r8(A)),
            0x18 => Some(self.RR_r8(B)),
            0x19 => Some(self.RR_r8(C)),
            0x1A => Some(self.RR_r8(D)),
            0x1B => Some(self.RR_r8(E)),
            0x1C => Some(self.RR_r8(H)),
            0x1D => Some(self.RR_r8(L)),
            0x1E => self.RR_HL(bus),
            0x1F => Some(self.RR_r8(A)),
            _ => None,
        }
    }

    /// The prefixed opcodes 0x20..=0x2F.
    #[verifier::rlimit(80)]
    fn prefix_row_2(&mut self, op: u8, bus: &mut Bus) -> (r: Option<u32>)
        requires
            old(bus)@.wf(),
            op / 16 == 2,
        ensures
            final(bus)@.wf(),
            outcome(exec_prefixed(op, old(self)@, old(bus)@), final(self)@, final(bus)@, r),
    {
        proof {
            reveal(exec_prefixed);
        }
        match op {
            0x20 => Some(self.SLA_r8(B)),
            0x21 => Some(self.SLA_r8(C)),
            0x22 => Some(self.SLA_r8(D)),
            0x23 => Some(self.SLA_r8(E)),
            0x24 => Some(self.SLA_r8(H)),
            0x25 => Some(self.SLA_r8(L)),
            0x26 => self.SLA_HL(bus),
            0x27 => Some(self.SLA_r8(A)),
            0x28 => Some(self.SRA_r8(B)),
            0x29 => Some(self.SRA_r8(C)),
            0x2A => Some(self.SRA_r8(D)),
            0x2B => Some(self.SRA_r8(E)),
            0x2C => Some(self.SRA_r8(H)),
            0x2D => Some(self.SRA_r8(L)),
            0x2E => self.SRA_HL(bus),
            0x2F => Some(self.SRA_r8(A)),
            _ => None,
        }
    }

    /// The prefixed opcodes 0x30..=0x3F.
    #[verifier::rlimit(80)]
    fn prefix_row_3(&mut self, op: u8, bus: &mut Bus) -> (r: Option<u32>)
        requires
            old(bus)@.wf(),
            op / 16 == 3,
        ensures
            final(bus)@.wf(),
            outcome(exec_prefixed(op, old(self)@, old(bus)@), final(self)@, final(bus)@, r),
    {
        proof {
            reveal(exec_prefixed);
        }
        match op {
            0x30 => Some(self.SWAP_r8(B)),
            0x31 => Some(self.SWAP_r8(C)),
            0x32 => Some(self.SWAP_r8(D)),
            0x33 => Some(self.SWAP_r8(E)),
            0x34 => Some(self.SWAP_r8(H)),
            0x35 => Some(self.SWAP_r8(L)),
            0x36 => self.SWAP_HL(bus),
            0x37 => Some(self.SWAP_r8(A)),
            0x38 => Some(self.SRL_r8(B)),
            0x39 => Some(self.SRL_r8(C)),
            0x3A => Some(self.SRL_r8(D)),
            0x3B => Some(self.SRL_r8(E)),
            0x3C => Some(self.SRL_r8(H)),
            0x3D => Some(self.SRL_r8(L)),
            0x3E => self.SRL_HL(bus),
            0x3F => Some(self.SRL_r8(A)),
            _ => None,
        }
    }

    /// The prefixed opcodes 0x40..=0x4F.
    #[verifier::rlimit(80)]
    fn prefix_row_4(&mut self, op: u8, bus: &mut Bus) -> (r: Option<u32>)
        requires
            old(bus)@.wf(),
            op / 16 == 4,
        ensures
            final(bus)@.wf(),
            outcome(exec_prefixed(op, old(self)@, old(bus)@), final(self)@, final(bus)@, r),
    {
        proof {
            reveal(exec_prefixed);
        }
        match op {
            0x40 => Some(self.BIT_u3_r8(0, B)),
            0x41 => Some(self.BIT_u3_r8(0, C)),
            0x42 => Some(self.BIT_u3_r8(0, D)),
            0x43 => Some(self.BIT_u3_r8(0, E)),
            0x44 => Some(self.BIT_u3_r8(0, H)),
            0x45 => Some(self.BIT_u3_r8(0, L)),
            0x46 => self.BIT_u3_HL(0, bus),
            0x47 => Some(self.BIT_u3_r8(0, A)),
            0x48 => Some(self.BIT_u3_r8(1, B)),
            0x49 => Some(self.BIT_u3_r8(1, C)),
            0x4A => Some(self.BIT_u3_r8(1, D)),
            0x4B => Some(self.BIT_u3_r8(1, E)),
            0x4C => Some(self.BIT_u3_r8(1, H)),
            0x4D => Some(self.BIT_u3_r8(1, L)),
            0x4E => self.BIT_u3_HL(1, bus),
            0x4F => Some(self.BIT_u3_r8(1, A)),
            _ => None,
        }
    }

    /// The prefixed opcodes 0x50..=0x5F.
    #[verifier::rlimit(80)]
    fn prefix_row_5(&mut self, op: u8, bus: &mut Bus) -> (r: Option<u32>)
        requires
            old(bus)@.wf(),
            op / 16 == 5,
        ensures
            final(bus)@.wf(),
            outcome(exec_prefixed(op, old(self)@, old(bus)@), final(self)@, final(bus)@, r),
    {
        proof {
            reveal(exec_prefixed);
        }
        match op {
            0x50 => Some(self.BIT_u3_r8(2, B)),
            0x51 => Some(self.BIT_u3_r8(2, C)),
            0x52 => Some(self.BIT_u3_r8(2, D)),
            0x53 => Some(self.BIT_u3_r8(2, E)),
            0x54 => Some(self.BIT_u3_r8(2, H)),
            0x55 => Some(self.BIT_u3_r8(2, L)),
            0x56 => self.BIT_u3_HL(2, bus),
            0x57 => Some(self.BIT_u3_r8(2, A)),
            0x58 => Some(self.BIT_u3_r8(3, B)),
            0x59 => Some(self.BIT_u3_r8(3, C)),
            0x5A => Some(self.BIT_u3_r8(3, D)),
            0x5B => Some(self.BIT_u3_r8(3, E)),
            0x5C => Some(self.BIT_u3_r8(3, H)),
            0x5D => Some(self.BIT_u3_r8(3, L)),
            0x5E => self.BIT_u3_HL(3, bus),
            0x5F => Some(self.BIT_u3_r8(3, A)),
            _ => None,
        }
    }

    /// The prefixed opcodes 0x60..=0x6F.
    #[verifier::rlimit(80)]
    fn prefix_row_6(&mut self, op: u8, bus: &mut Bus) -> (r: Option<u32>)
        requires
            old(bus)@.wf(),
            op / 16 == 6,
        ensures
            final(bus)@.wf(),
            outcome(exec_prefixed(op, old(self)@, old(bus)@), final(self)@, final(bus)@, r),
    {
        proof {
            reveal(exec_prefixed);
        }
        match op {
            0x60 => Some(self.BIT_u3_r8(4, B)),
            0x61 => Some(self.BIT_u3_r8(4, C)),
            0x62 => Some(self.BIT_u3_r8(4, D)),
            0x63 => Some(self.BIT_u3_r8(4, E)),
            0x64 => Some(self.BIT_u3_r8(4, H)),
            0x65 => Some(self.BIT_u3_r8(4, L)),
            0x66 => self.BIT_u3_HL(4, bus),
            0x67 => Some(self.BIT_u3_r8(4, A)),
            0x68 => Some(self.BIT_u3_r8(5, B)),
            0x69 => Some(self.BIT_u3_r8(5, C)),
            0x6A => Some(self.BIT_u3_r8(5, D)),
            0x6B => Some(self.BIT_u3_r8(5, E)),
            0x6C => Some(self.BIT_u3_r8(5, H)),
            0x6D => Some(self.BIT_u3_r8(5, L)),
            0x6E => self.BIT_u3_HL(5, bus),
            0x6F => Some(self.BIT_u3_r8(5, A)),
            _ => None,
        }
    }

    /// The prefixed opcodes 0x70..=0x7F.
    #[verifier::rlimit(80)]
    fn prefix_row_7(&mut self, op: u8, bus: &mut Bus) -> (r: Option<u32>)
        requires
            old(bus)@.wf(),
            op / 16 == 7,
        ensures
            final(bus)@.wf(),
            outcome(exec_prefixed(op, old(self)@, old(bus)@), final(self)@, final(bus)@, r),
    {
        proof {
            reveal(exec_prefixed);
        }
        match op {
            0x70 => Some(self.BIT_u3_r8(6, B)),
            0x71 => Some(self.BIT_u3_r8(6, C)),
            0x72 => Some(self.BIT_u3_r8(6, D)),
            0x73 => Some(self.BIT_u3_r8(6, E)),
            0x74 => Some(self.BIT_u3_r8(6, H)),
            0x75 => Some(self.BIT_u3_r8(6, L)),
            0x76 => self.BIT_u3_HL(6, bus),
            0x77 => Some(self.BIT_u3_r8(6, A)),
            0x78 => Some(self.BIT_u3_r8(7, B)),
            0x79 => Some(self.BIT_u3_r8(7, C)),
            0x7A => Some(self.BIT_u3_r8(7, D)),
            0x7B => Some(self.BIT_u3_r8(7, E)),
            0x7C => Some(self.BIT_u3_r8(7, H)),
            0x7D => Some(self.BIT_u3_r8(7, L)),
            0x7E => self.BIT_u3_HL(7, bus),
            0x7F => Some(self.BIT_u3_r8(7, A)),
            _ => None,
        }
    }

    /// The prefixed opcodes 0x80..=0x8F.
    #[verifier::rlimit(80)]
    fn prefix_row_8(&mut self, op: u8, bus: &mut Bus) -> (r: Option<u32>)
        requires
            old(bus)@.wf(),
            op / 16 == 8,
        ensures
            final(bus)@.wf(),
            outcome(exec_prefixed(op, old(self)@, old(bus)@), final(self)@, final(bus)@, r),
    {
        proof {
            reveal(exec_prefixed);
        }
        match op {
            0x80 => Some(self.RES_u3_r8(0, B)),
            0x81 => Some(self.RES_u3_r8(0, C)),
            0x82 => Some(self.RES_u3_r8(0, D)),
            0x83 => Some(self.RES_u3_r8(0, E)),
            0x84 => Some(self.RES_u3_r8(0, H)),
            0x85 => Some(self.RES_u3_r8(0, L)),
            0x86 => self.RES_u3_HL(0, bus),
            0x87 => Some(self.RES_u3_r8(0, A)),
            0x88 => Some(self.RES_u3_r8(1, B)),
            0x89 => Some(self.RES_u3_r8(1, C)),
            0x8A => Some(self.RES_u3_r8(1, D)),
            0x8B => Some(self.RES_u3_r8(1, E)),
            0x8C => Some(self.RES_u3_r8(1, H)),
            0x8D => Some(self.RES_u3_r8(1, L)),
            0x8E => self.RES_u3_HL(1, bus),
            0x8F => Some(self.RES_u3_r8(1, A)),
            _ => None,
        }
    }

    /// The prefixed opcodes 0x90..=0x9F.
    #[verifier::rlimit(80)]
    fn prefix_row_9(&mut self, op: u8, bus: &mut Bus) -> (r: Option<u32>)
        requires
            old(bus)@.wf(),
            op / 16 == 9,
        ensures
            final(bus)@.wf(),
            outcome(exec_prefixed(op, old(self)@, old(bus)@), final(self)@, final(bus)@, r),
    {
        proof {
            reveal(exec_prefixed);
        }
        match op {
            0x90 => Some(self.RES_u3_r8(2, B)),
            0x91 => Some(self.RES_u3_r8(2, C)),
            0x92 => Some(self.RES_u3_r8(2, D)),
            0x93 => Some(self.RES_u3_r8(2, E)),
            0x94 => Some(self.RES_u3_r8(2, H)),
            0x95 => Some(self.RES_u3_r8(2, L)),
            0x96 => self.RES_u3_HL(2, bus),
            0x97 => Some(self.RES_u3_r8(2, A)),
            0x98 => Some(self.RES_u3_r8(3, B)),
            0x99 => Some(self.RES_u3_r8(3, C)),
            0x9A => Some(self.RES_u3_r8(3, D)),
            0x9B => Some(self.RES_u3_r8(3, E)),
            0x9C => Some(self.RES_u3_r8(3, H)),
            0x9D => Some(self.RES_u3_r8(3, L)),
            0x9E => self.RES_u3_HL(3, bus),
            0x9F => Some(self.RES_u3_r8(3, A)),
            _ => None,
        }
    }

    /// The prefixed opcodes 0xA0..=0xAF.
    #[verifier::rlimit(80)]
    fn prefix_row_a(&mut self, op: u8, bus: &mut Bus) -> (r: Option<u32>)
        requires
            old(bus)@.wf(),
            op / 16 == 10,
        ensures
            final(bus)@.wf(),
            outcome(exec_prefixed(op, old(self)@, old(bus)@), final(self)@, final(bus)@, r),
    {
        proof {
            reveal(exec_prefixed);
        }
        match op {
            0xA0 => Some(self.RES_u3_r8(4, B)),
            0xA1 => Some(self.RES_u3_r8(4, C)),
            0xA2 => Some(self.RES_u3_r8(4, D)),
            0xA3 => Some(self.RES_u3_r8(4, E)),
            0xA4 => Some(self.RES_u3_r8(4, H)),
            0xA5 => Some(self.RES_u3_r8(4, L)),
            0xA6 => self.RES_u3_HL(4, bus),
            0xA7 => Some(self.RES_u3_r8(4, A)),
            0xA8 => Some(self.RES_u3_r8(5, B)),
            0xA9 => Some(self.RES_u3_r8(5, C)),
            0xAA => Some(self.RES_u3_r8(5, D)),
            0xAB => Some(self.RES_u3_r8(5, E)),
            0xAC => Some(self.RES_u3_r8(5, H)),
            0xAD => Some(self.RES_u3_r8(5, L)),
            0xAE => self.RES_u3_HL(5, bus),
            0xAF => Some(self.RES_u3_r8(5, A)),
            _ => None,
        }
    }

    /// The prefixed opcodes 0xB0..=0xBF.
    #[verifier::rlimit(80)]
    fn prefix_row_b(&mut self, op: u8, bus: &mut Bus) -> (r: Option<u32>)
        requires
            old(bus)@.wf(),
            op / 16 == 11,
        ensures
            final(bus)@.wf(),
            outcome(exec_prefixed(op, old(self)@, old(bus)@), final(self)@, final(bus)@, r),
    {
        proof {
            reveal(exec_prefixed);
        }
        match op {
            0xB0 => Some(self.RES_u3_r8(6, B)),
            0xB1 => Some(self.RES_u3_r8(6, C)),
            0xB2 => Some(self.RES_u3_r8(6, D)),
            0xB3 => Some(self.RES_u3_r8(6, E)),
            0xB4 => Some(self.RES_u3_r8(6, H)),
            0xB5 => Some(self.RES_u3_r8(6, L)),
            0xB6 => self.RES_u3_HL(6, bus),
            0xB7 => Some(self.RES_u3_r8(6, A)),
            0xB8 => Some(self.RES_u3_r8(7, B)),
            0xB9 => Some(self.RES_u3_r8(7, C)),
            0xBA => Some(self.RES_u3_r8(7, D)),
            0xBB => Some(self.RES_u3_r8(7, E)),
            0xBC => Some(self.RES_u3_r8(7, H)),
            0xBD => Some(self.RES_u3_r8(7, L)),
            0xBE => self.RES_u3_HL(7, bus),
            0xBF => Some(self.RES_u3_r8(7, A)),
            _ => None,
        }
    }

    /// The prefixed opcodes 0xC0..=0xCF.
    #[verifier::rlimit(80)]
    fn prefix_row_c(&mut self, op: u8, bus: &mut Bus) -> (r: Option<u32>)
        requires
            old(bus)@.wf(),
            op / 16 == 12,
        ensures
            final(bus)@.wf(),
            outcome(exec_prefixed(op, old(self)@, old(bus)@), final(self)@, final(bus)@, r),
    {
        proof {
            reveal(exec_prefixed);
        }
        match op {
            0xC0 => Some(self.SET_u3_r8(0, B)),
            0xC1 => Some(self.SET_u3_r8(0, C)),
            0xC2 => Some(self.SET_u3_r8(0, D)),
            0xC3 => Some(self.SET_u3_r8(0, E)),
            0xC4 => Some(self.SET_u3_r8(0, H)),
            0xC5 => Some(self.SET_u3_r8(0, L)),
            0xC6 => self.SET_u3_HL(0, bus),
            0xC7 => Some(self.SET_u3_r8(0, A)),
            0xC8 => Some(self.SET_u3_r8(1, B)),
            0xC9 => Some(self.SET_u3_r8(1, C)),
            0xCA => Some(self.SET_u3_r8(1, D)),
            0xCB => Some(self.SET_u3_r8(1, E)),
            0xCC => Some(self.SET_u3_r8(1, H)),
            0xCD => Some(self.SET_u3_r8(1, L)),
            0xCE => self.SET_u3_HL(1, bus),
            0xCF => Some(self.SET_u3_r8(1, A)),
            _ => None,
        }
    }

    /// The prefixed opcodes 0xD0..=0xDF.
    #[verifier::rlimit(80)]
    fn prefix_row_d(&mut self, op: u8, bus: &mut Bus) -> (r: Option<u32>)
        requires
            old(bus)@.wf(),
            op / 16 == 13,
        ensures
            final(bus)@.wf(),
            outcome(exec_prefixed(op, old(self)@, old(bus)@), final(self)@, final(bus)@, r),
    {
        proof {
            reveal(exec_prefixed);
        }
        match op {
            0xD0 => Some(self.SET_u3_r8(2, B)),
            0xD1 => Some(self.SET_u3_r8(2, C)),
            0xD2 => Some(self.SET_u3_r8(2, D)),
            0xD3 => Some(self.SET_u3_r8(2, E)),
            0xD4 => Some(self.SET_u3_r8(2, H)),
            0xD5 => Some(self.SET_u3_r8(2, L)),
            0xD6 => self.SET_u3_HL(2, bus),
            0xD7 => Some(self.SET_u3_r8(2, A)),
            0xD8 => Some(self.SET_u3_r8(3, B)),
            0xD9 => Some(self.SET_u3_r8(3, C)),
            0xDA => Some(self.SET_u3_r8(3, D)),
            0xDB => Some(self.SET_u3_r8(3, E)),
            0xDC => Some(self.SET_u3_r8(3, H)),
            0xDD => Some(self.SET_u3_r8(3, L)),
            0xDE => self.SET_u3_HL(3, bus),
            0xDF => Some(self.SET_u3_r8(3, A)),
            _ => None,
        }
    }

    /// The prefixed opcodes 0xE0..=0xEF.
    #[verifier::rlimit(80)]
    fn prefix_row_e(&mut self, op: u8, bus: &mut Bus) -> (r: Option<u32>)
        requires
            old(bus)@.wf(),
            op / 16 == 14,
        ensures
            final(bus)@.wf(),
            outcome(exec_prefixed(op, old(self)@, old(bus)@), final(self)@, final(bus)@, r),
    {
        proof {
            reveal(exec_prefixed);
        }
        match op {
            0xE0 => Some(self.SET_u3_r8(4, B)),
            0xE1 => Some(self.SET_u3_r8(4, C)),
            0xE2 => Some(self.SET_u3_r8(4, D)),
            0xE3 => Some(self.SET_u3_r8(4, E)),
            0xE4 => Some(self.SET_u3_r8(4, H)),
            0xE5 => Some(self.SET_u3_r8(4, L)),
            0xE6 => self.SET_u3_HL(4, bus),
            0xE7 => Some(self.SET_u3_r8(4, A)),
            0xE8 => Some(self.SET_u3_r8(5, B)),
            0xE9 => Some(self.SET_u3_r8(5, C)),
            0xEA => Some(self.SET_u3_r8(5, D)),
            0xEB => Some(self.SET_u3_r8(5, E)),
            0xEC => Some(self.SET_u3_r8(5, H)),
            0xED => Some(self.SET_u3_r8(5, L)),
            0xEE => self.SET_u3_HL(5, bus),
            0xEF => Some(self.SET_u3_r8(5, A)),
            _ => None,
        }
    }

    /// The prefixed opcodes 0xF0..=0xFF.
    #[verifier::rlimit(80)]
    fn prefix_row_f(&mut self, op: u8, bus: &mut Bus) -> (r: Option<u32>)
        requires
            old(bus)@.wf(),
            op / 16 == 15,
        ensures
            final(bus)@.wf(),
            outcome(exec_prefixed(op, old(self)@, old(bus)@), final(self)@, final(bus)@, r),
    {
        proof {
            reveal(exec_prefixed);
        }
        match op {
            0xF0 => Some(self.SET_u3_r8(6, B)),
            0xF1 => Some(self.SET_u3_r8(6, C)),
            0xF2 => Some(self.SET_u3_r8(6, D)),
            0xF3 => Some(self.SET_u3_r8(6, E)),
            0xF4 => Some(self.SET_u3_r8(6, H)),
            0xF5 => Some(self.SET_u3_r8(6, L)),
            0xF6 => self.SET_u3_HL(6, bus),
            0xF7 => Some(self.SET_u3_r8(6, A)),
            0xF8 => Some(self.SET_u3_r8(7, B)),
            0xF9 => Some(self.SET_u3_r8(7, C)),
            0xFA => Some(self.SET_u3_r8(7, D)),
            0xFB => Some(self.SET_u3_r8(7, E)),
            0xFC => Some(self.SET_u3_r8(7, H)),
            0xFD => Some(self.SET_u3_r8(7, L)),
            0xFE => self.SET_u3_HL(7, bus),
            0xFF => Some(self.SET_u3_r8(7, A)),
            _ => None,
        }
    }

    fn prefix(&mut self, bus: &mut Bus) -> (r: Option<u32>)
        requires
            old(bus)@.wf(),
        ensures
            final(bus)@.wf(),
            outcome(prefixed(old(self)@, old(bus)@), final(self)@, final(bus)@, r),
    {
        proof {
            reveal(prefixed);
        }
        let prefix = bus.try_read(self.pc)?;
        if self.pc == 0xFFFF {
            return None;
        }
        self.pc += 1;
        let t_states = match prefix / 16 {
            0 => self.prefix_row_0(prefix, bus),
            1 => self.prefix_row_1(prefix, bus),
            2 => self.prefix_row_2(prefix, bus),
            3 => self.prefix_row_3(prefix, bus),
            4 => self.prefix_row_4(prefix, bus),
            5 => self.prefix_row_5(prefix, bus),
            6 => self.prefix_row_6(prefix, bus),
            7 => self.prefix_row_7(prefix, bus),
            8 => self.prefix_row_8(prefix, bus),
            9 => self.prefix_row_9(prefix, bus),
            10 => self.prefix_row_a(prefix, bus),
            11 => self.prefix_row_b(prefix, bus),
            12 => self.prefix_row_c(prefix, bus),
            13 => self.prefix_row_d(prefix, bus),
            14 => self.prefix_row_e(prefix, bus),
            15 => self.prefix_row_f(prefix, bus),
            _ => None,
        };
        return t_states;
    }

    /// Runs the instruction `opcode`, whose byte has been read.
    fn execute(&mut self, opcode: u8, bus: &mut Bus) -> (r: Option<u32>)
        requires
            old(bus)@.wf(),
        ensures
            final(bus)@.wf(),
            outcome(sm83::exec(opcode, old(self)@, old(bus)@), final(self)@, final(bus)@, r),
    {
        match opcode / 16 {
            0 => self.row_0(opcode, bus),
            1 => self.row_1(opcode, bus),
            2 => self.row_2(opcode, bus),
            3 => self.row_3(opcode, bus),
            4 => self.row_4(opcode, bus),
            5 => self.row_5(opcode, bus),
            6 => self.row_6(opcode, bus),
            7 => self.row_7(opcode, bus),
            8 => self.row_8(opcode, bus),
            9 => self.row_9(opcode, bus),
            10 => self.row_a(opcode, bus),
            11 => self.row_b(opcode, bus),
            12 => self.row_c(opcode, bus),
            13 => self.row_d(opcode, bus),
            14 => self.row_e(opcode, bus),
            15 => self.row_f(opcode, bus),
            _ => None,
        }
    }

    /// One step: reads the opcode at PC, runs it and adds its cycles to the
    /// cycle counter; `None` where `sm83::step` has no outcome (the state is
    /// then whatever the step had done up to that point).
    pub fn try_step(&mut self, bus: &mut Bus) -> (r: Option<u32>)
        requires
            old(bus)@.wf(),
        ensures
            final(bus)@.wf(),
            outcome(sm83::step(old(self)@, old(bus)@), final(self)@, final(bus)@, r),
    {
        let opcode = bus.try_read(self.pc)?;
        if self.pc == 0xFFFF {
            return None;
        }
        self.pc += 1;
        let t_states = self.execute(opcode, bus)?;
        if self.t_states > u32::MAX - t_states {
            return None;
        }
        self.t_states += t_states;
        return Some(t_states);
    }

    /// One step of the CPU; returns the cycles that the instruction took.
    pub fn step(&mut self, bus: &mut Bus) -> (t: u32)
        requires
            old(bus)@.wf(),
            sm83::step(old(self)@, old(bus)@) is Some,
        ensures
            final(bus)@.wf(),
            Some((final(self)@, final(bus)@, t)) == sm83::step(old(self)@, old(bus)@),
    {
        self.try_step(bus).unwrap()
    }
}

} // verus!
