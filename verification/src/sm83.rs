//! The instruction set of the Game Boy CPU (the SM83) as mathematical
//! functions over the register state and the bus state.
//!
//! An opcode is read as the fields x (bits 7-6), y (bits 5-3) and z (bits
//! 2-0); y splits further into p (bits 5-4) and q (bit 3). Register numbers
//! follow that encoding: 0 B, 1 C, 2 D, 3 E, 4 H, 5 L, 6 the byte at HL,
//! 7 A; register pairs 0 BC, 1 DE, 2 HL, 3 SP; conditions 0 NZ, 1 Z, 2 NC,
//! 3 C.
//!
//! Every step is `None` where the emulator has no defined outcome: a byte of
//! the bus that cannot be read or written, a program counter or a stack
//! pointer that would leave 0x0000..=0xFFFF, an opcode that it does not
//! implement, or a cycle counter that would overflow.
use vstd::prelude::*;
use crate::bus::{BusView, is_memory, lemma_memory_write_read, lemma_memory_write_other, lemma_read_changes_only_ramg};

verus! {

/// The registers of the CPU. F is held as its four flags and its low nibble.
pub struct CpuView {
    pub a: u8,
    pub zf: bool,
    pub nf: bool,
    pub hf: bool,
    pub cf: bool,
    pub f_low: u8,
    pub bc: u16,
    pub de: u16,
    pub hl: u16,
    pub sp: u16,
    pub pc: u16,
    pub t_states: u32,
    pub m_cycles: u32,
    pub ime: u8,
}

pub type Outcome = Option<(CpuView, BusView, u32)>;

pub open spec fn hi(w: u16) -> u8 {
    (w / 256) as u8
}

pub open spec fn lo(w: u16) -> u8 {
    (w % 256) as u8
}

pub open spec fn word(h: u8, l: u8) -> u16 {
    (h * 256 + l) as u16
}

pub open spec fn with_hi(w: u16, v: u8) -> u16 {
    word(v, lo(w))
}

pub open spec fn with_lo(w: u16, v: u8) -> u16 {
    word(hi(w), v)
}

/// `x` modulo 256 (the remainder is never negative).
pub open spec fn wrap8(x: int) -> u8 {
    (x % 256) as u8
}

/// `x` modulo 65536 (the remainder is never negative).
pub open spec fn wrap16(x: int) -> u16 {
    (x % 65536) as u16
}

/// The byte read as a two's-complement offset.
pub open spec fn signed(v: u8) -> int {
    if v < 128 {
        v as int
    } else {
        v - 256
    }
}

pub open spec fn b2i(b: bool) -> int {
    if b {
        1
    } else {
        0
    }
}

/// The F register as PUSH AF stores it: the four flags in bits 7-4.
pub open spec fn flag_byte(c: CpuView) -> u8 {
    (b2i(c.zf) * 128 + b2i(c.nf) * 64 + b2i(c.hf) * 32 + b2i(c.cf) * 16) as u8
}

impl CpuView {
    pub open spec fn b(self) -> u8 {
        hi(self.bc)
    }

    pub open spec fn c(self) -> u8 {
        lo(self.bc)
    }

    pub open spec fn d(self) -> u8 {
        hi(self.de)
    }

    pub open spec fn e(self) -> u8 {
        lo(self.de)
    }

    pub open spec fn h(self) -> u8 {
        hi(self.hl)
    }

    pub open spec fn l(self) -> u8 {
        lo(self.hl)
    }

    pub open spec fn reg8(self, r: int) -> u8 {
        if r == 0 {
            self.b()
        } else if r == 1 {
            self.c()
        } else if r == 2 {
            self.d()
        } else if r == 3 {
            self.e()
        } else if r == 4 {
            self.h()
        } else if r == 5 {
            self.l()
        } else {
            self.a
        }
    }

    pub open spec fn with_reg8(self, r: int, v: u8) -> CpuView {
        if r == 0 {
            CpuView { bc: with_hi(self.bc, v), ..self }
        } else if r == 1 {
            CpuView { bc: with_lo(self.bc, v), ..self }
        } else if r == 2 {
            CpuView { de: with_hi(self.de, v), ..self }
        } else if r == 3 {
            CpuView { de: with_lo(self.de, v), ..self }
        } else if r == 4 {
            CpuView { hl: with_hi(self.hl, v), ..self }
        } else if r == 5 {
            CpuView { hl: with_lo(self.hl, v), ..self }
        } else {
            CpuView { a: v, ..self }
        }
    }

    pub open spec fn rp(self, p: int) -> u16 {
        if p == 0 {
            self.bc
        } else if p == 1 {
            self.de
        } else if p == 2 {
            self.hl
        } else {
            self.sp
        }
    }

    pub open spec fn with_rp(self, p: int, w: u16) -> CpuView {
        if p == 0 {
            CpuView { bc: w, ..self }
        } else if p == 1 {
            CpuView { de: w, ..self }
        } else if p == 2 {
            CpuView { hl: w, ..self }
        } else {
            CpuView { sp: w, ..self }
        }
    }

    pub open spec fn with_flags(self, z: bool, n: bool, h: bool, c: bool) -> CpuView {
        CpuView { zf: z, nf: n, hf: h, cf: c, ..self }
    }

    /// Condition 0 NZ, 1 Z, 2 NC, 3 C.
    pub open spec fn cond(self, cc: int) -> bool {
        if cc == 0 {
            !self.zf
        } else if cc == 1 {
            self.zf
        } else if cc == 2 {
            !self.cf
        } else {
            self.cf
        }
    }

    pub open spec fn with_pc(self, pc: u16) -> CpuView {
        CpuView { pc: pc, ..self }
    }

    pub open spec fn with_sp(self, sp: u16) -> CpuView {
        CpuView { sp: sp, ..self }
    }
}

// ---------------------------------------------------------------------------
// Arithmetic and logic on A.
/// ALU operation 0 ADD, 1 ADC, 2 SUB, 3 SBC, 4 AND, 5 XOR, 6 OR, 7 CP, with
/// operand `v`. The half-carry flag of ADD, ADC, SUB and SBC is computed
/// from the new A: H is set when the low nibbles of the new A and of the
/// operand sum past 15 (ADD, ADC), or when the new A's low nibble is below
/// the operand's (SUB, SBC); CP compares with the unchanged A.
#[verifier::opaque]
pub open spec fn alu(c: CpuView, op: int, v: u8) -> CpuView {
    let a = c.a;
    let cy = b2i(c.cf);
    if op == 0 {
        let r = wrap8(a + v);
        CpuView { a: r, ..c.with_flags(r == 0, false, r % 16 + v % 16 >= 16, a + v > 255) }
    } else if op == 1 {
        let r = wrap8(a + v + cy);
        CpuView { a: r, ..c.with_flags(r == 0, false, r % 16 + v % 16 >= 16, a + v + cy > 255) }
    } else if op == 2 {
        let r = wrap8(a - v);
        CpuView { a: r, ..c.with_flags(r == 0, true, r % 16 < v % 16, v > a) }
    } else if op == 3 {
        let r = wrap8(a - v - cy);
        CpuView { a: r, ..c.with_flags(r == 0, true, r % 16 < v % 16, a < v + cy) }
    } else if op == 4 {
        let r = a & v;
        CpuView { a: r, ..c.with_flags(r == 0, false, true, false) }
    } else if op == 5 {
        let r = v ^ a;
        CpuView { a: r, ..c.with_flags(r == 0, false, false, false) }
    } else if op == 6 {
        let r = v | a;
        CpuView { a: r, ..c.with_flags(r == 0, false, false, false) }
    } else {
        c.with_flags(a == v, true, a % 16 < v % 16, v > a)
    }
}

/// INC of a byte: the result and the flags (C unchanged).
pub open spec fn inc8(c: CpuView, v: u8) -> (CpuView, u8) {
    let r = wrap8(v + 1);
    (c.with_flags(r == 0, false, v % 16 == 15, c.cf), r)
}

/// DEC of a byte: the result and the flags (C unchanged).
pub open spec fn dec8(c: CpuView, v: u8) -> (CpuView, u8) {
    let r = wrap8(v - 1);
    (c.with_flags(r == 0, true, v % 16 == 0, c.cf), r)
}

/// INC of register `r`.
#[verifier::opaque]
pub open spec fn inc_reg(c: CpuView, r: int) -> CpuView {
    inc8(c, c.reg8(r)).0.with_reg8(r, inc8(c, c.reg8(r)).1)
}

/// DEC of register `r`.
#[verifier::opaque]
pub open spec fn dec_reg(c: CpuView, r: int) -> CpuView {
    dec8(c, c.reg8(r)).0.with_reg8(r, dec8(c, c.reg8(r)).1)
}

/// Rotate/shift operation 0 RLC, 1 RRC, 2 RL, 3 RR, 4 SLA, 5 SRA, 6 SWAP,
/// 7 SRL of `v`: the result, and the carry flag that it leaves.
pub open spec fn shift_result(c: CpuView, op: int, v: u8) -> (u8, bool) {
    let cy = b2i(c.cf);
    if op == 0 {
        (((v * 2) % 256 + v / 128) as u8, v / 128 == 1)
    } else if op == 1 {
        ((v / 2 + (v % 2) * 128) as u8, v % 2 == 1)
    } else if op == 2 {
        (((v * 2) % 256 + cy) as u8, v / 128 == 1)
    } else if op == 3 {
        ((v / 2 + cy * 128) as u8, v % 2 == 1)
    } else if op == 4 {
        (((v * 2) % 256) as u8, v / 128 == 1)
    } else if op == 5 {
        ((v / 2 + (v / 128) * 128) as u8, v % 2 == 1)
    } else if op == 6 {
        (((v % 16) * 16 + v / 16) as u8, false)
    } else {
        ((v / 2) as u8, v % 2 == 1)
    }
}

/// A prefixed rotate/shift: result, Z from the result, N and H cleared.
pub open spec fn shift(c: CpuView, op: int, v: u8) -> (CpuView, u8) {
    let (r, carry) = shift_result(c, op, v);
    (c.with_flags(r == 0, false, false, carry), r)
}

/// A prefixed rotate/shift of register `r`.
#[verifier::opaque]
pub open spec fn shift_reg(c: CpuView, op: int, r: int) -> CpuView {
    shift(c, op, c.reg8(r)).0.with_reg8(r, shift(c, op, c.reg8(r)).1)
}

/// RLCA, RRCA, RLA, RRA (operations 0-3 on A): as the prefixed forms, but Z
/// is cleared.
#[verifier::opaque]
pub open spec fn rotate_a(c: CpuView, op: int) -> CpuView {
    let (r, carry) = shift_result(c, op, c.a);
    CpuView { a: r, ..c.with_flags(false, false, false, carry) }
}

pub open spec fn bit_set(v: u8, n: int) -> bool {
    (v >> (n as u8)) & 1 == 1
}

/// BIT n: Z is set when bit n is clear; N cleared, H set.
#[verifier::opaque]
pub open spec fn bit_test(c: CpuView, n: int, v: u8) -> CpuView {
    c.with_flags(!bit_set(v, n), false, true, c.cf)
}

#[verifier::opaque]
pub open spec fn res_bit(v: u8, n: int) -> u8 {
    v & !(1u8 << (n as u8))
}

#[verifier::opaque]
pub open spec fn set_bit(v: u8, n: int) -> u8 {
    v | (1u8 << (n as u8))
}

/// DAA: after a subtraction, take 6 off for H and 0x60 off for C; after an
/// addition, add 6 when H is set or the low nibble is above 9 and add 0x60
/// (setting C) when C is set or A is above 0x99. Z from the result, H
/// cleared.
#[verifier::opaque]
pub open spec fn daa(c: CpuView) -> CpuView {
    let a = c.a;
    if c.nf {
        let adj = b2i(c.hf) * 6 + b2i(c.cf) * 0x60;
        let r = wrap8(a - adj);
        CpuView { a: r, zf: r == 0, hf: false, ..c }
    } else {
        let low = c.hf || a % 16 > 9;
        let high = c.cf || a > 0x99;
        let adj = b2i(low) * 6 + b2i(high) * 0x60;
        let r = wrap8(a + adj);
        CpuView { a: r, zf: r == 0, hf: false, cf: c.cf || high, ..c }
    }
}

#[verifier::opaque]
pub open spec fn cpl(c: CpuView) -> CpuView {
    CpuView { a: (255 - c.a) as u8, nf: true, hf: true, ..c }
}

#[verifier::opaque]
pub open spec fn scf(c: CpuView) -> CpuView {
    CpuView { nf: false, hf: false, cf: true, ..c }
}

#[verifier::opaque]
pub open spec fn ccf(c: CpuView) -> CpuView {
    CpuView { nf: false, hf: false, cf: !c.cf, ..c }
}

/// ADD HL, w: Z unchanged; H is set when the low twelve bits of the new HL
/// and of w sum past 0xFFF; C on overflow of sixteen bits.
#[verifier::opaque]
pub open spec fn add_hl(c: CpuView, w: u16) -> CpuView {
    let r = wrap16(c.hl + w);
    CpuView {
        hl: r,
        nf: false,
        hf: r % 4096 + w % 4096 > 4095,
        cf: c.hl + w > 65535,
        ..c
    }
}

/// ADD SP, e8 with offset byte `v`: H and C come from the low nibble and the
/// low byte of the new SP plus those of `v`.
pub open spec fn add_sp(c: CpuView, v: u8) -> CpuView {
    let r = wrap16(c.sp + signed(v));
    CpuView { sp: r, ..c.with_flags(false, false, r % 16 + v % 16 > 15, r % 256 + v > 255) }
}

/// LD HL, SP+e8 with offset byte `v`: H from the low nibbles of SP and `v`;
/// C when SP plus the signed offset leaves 0..=0xFFFF.
pub open spec fn ld_hl_sp(c: CpuView, v: u8) -> CpuView {
    let s = c.sp + signed(v);
    CpuView {
        hl: wrap16(s),
        ..c.with_flags(false, false, c.sp % 16 + v % 16 > 15, s < 0 || s > 65535)
    }
}

// ---------------------------------------------------------------------------
// Bus accesses.
pub open spec fn mem_read(b: BusView, addr: u16) -> Option<(BusView, u8)> {
    b.read(addr)
}

/// Reads the byte at PC and moves PC on.
pub open spec fn fetch8(c: CpuView, b: BusView) -> Option<(CpuView, BusView, u8)> {
    match b.read(c.pc) {
        Some((b1, v)) => if c.pc == 0xFFFF {
            None
        } else {
            Some((c.with_pc((c.pc + 1) as u16), b1, v))
        },
        None => None,
    }
}

/// Reads a little-endian word at PC.
pub open spec fn fetch16(c: CpuView, b: BusView) -> Option<(CpuView, BusView, u16)> {
    match fetch8(c, b) {
        Some((c1, b1, l)) => match fetch8(c1, b1) {
            Some((c2, b2, h)) => Some((c2, b2, word(h, l))),
            None => None,
        },
        None => None,
    }
}

/// Moves SP down and stores a byte there.
pub open spec fn push8(c: CpuView, b: BusView, v: u8) -> Option<(CpuView, BusView)> {
    if c.sp == 0 {
        None
    } else {
        let c1 = c.with_sp((c.sp - 1) as u16);
        match b.write(c1.sp, v) {
            Some(b1) => Some((c1, b1)),
            None => None,
        }
    }
}

/// Stores a word on the stack, high byte first.
pub open spec fn push16(c: CpuView, b: BusView, w: u16) -> Option<(CpuView, BusView)> {
    match push8(c, b, hi(w)) {
        Some((c1, b1)) => push8(c1, b1, lo(w)),
        None => None,
    }
}

/// Reads the byte at SP and moves SP up.
pub open spec fn pop8(c: CpuView, b: BusView) -> Option<(CpuView, BusView, u8)> {
    match b.read(c.sp) {
        Some((b1, v)) => if c.sp == 0xFFFF {
            None
        } else {
            Some((c.with_sp((c.sp + 1) as u16), b1, v))
        },
        None => None,
    }
}

/// Reads a word from the stack, low byte first.
pub open spec fn pop16(c: CpuView, b: BusView) -> Option<(CpuView, BusView, u16)> {
    match pop8(c, b) {
        Some((c1, b1, l)) => match pop8(c1, b1) {
            Some((c2, b2, h)) => Some((c2, b2, word(h, l))),
            None => None,
        },
        None => None,
    }
}

// ---------------------------------------------------------------------------
// Instructions that touch the bus. Each takes the state after the opcode has
// been read.
/// Loads register `r` from `addr`.
#[verifier::opaque]
pub open spec fn load(c: CpuView, b: BusView, r: int, addr: u16, t: u32) -> Outcome {
    match b.read(addr) {
        Some((b1, v)) => Some((c.with_reg8(r, v), b1, t)),
        None => None,
    }
}

/// Stores `v` at `addr`.
#[verifier::opaque]
pub open spec fn store(c: CpuView, b: BusView, addr: u16, v: u8, t: u32) -> Outcome {
    match b.write(addr, v) {
        Some(b1) => Some((c, b1, t)),
        None => None,
    }
}

/// LD r, n8.
#[verifier::opaque]
pub open spec fn load_imm(c: CpuView, b: BusView, r: int) -> Outcome {
    match fetch8(c, b) {
        Some((c1, b1, v)) => Some((c1.with_reg8(r, v), b1, 8)),
        None => None,
    }
}

/// LD rr, n16.
#[verifier::opaque]
pub open spec fn load_imm16(c: CpuView, b: BusView, p: int) -> Outcome {
    match fetch16(c, b) {
        Some((c1, b1, w)) => Some((c1.with_rp(p, w), b1, 12)),
        None => None,
    }
}

/// LD [HL], n8.
#[verifier::opaque]
pub open spec fn store_imm_hl(c: CpuView, b: BusView) -> Outcome {
    match fetch8(c, b) {
        Some((c1, b1, v)) => store(c1, b1, c1.hl, v, 12),
        None => None,
    }
}

/// LD [HL+], A (`step` 1) and LD [HL-], A (`step` -1).
#[verifier::opaque]
pub open spec fn store_a_hl_step(c: CpuView, b: BusView, step: int) -> Outcome {
    match b.write(c.hl, c.a) {
        Some(b1) => Some((CpuView { hl: wrap16(c.hl + step), ..c }, b1, 8)),
        None => None,
    }
}

/// LD A, [HL+] (`step` 1) and LD A, [HL-] (`step` -1).
#[verifier::opaque]
pub open spec fn load_a_hl_step(c: CpuView, b: BusView, step: int) -> Outcome {
    match b.read(c.hl) {
        Some((b1, v)) => Some((CpuView { a: v, hl: wrap16(c.hl + step), ..c }, b1, 8)),
        None => None,
    }
}

/// LD [a16], A.
#[verifier::opaque]
pub open spec fn store_a_abs(c: CpuView, b: BusView) -> Outcome {
    match fetch16(c, b) {
        Some((c1, b1, addr)) => store(c1, b1, addr, c.a, 16),
        None => None,
    }
}

/// LD A, [a16].
#[verifier::opaque]
pub open spec fn load_a_abs(c: CpuView, b: BusView) -> Outcome {
    match fetch16(c, b) {
        Some((c1, b1, addr)) => load(c1, b1, 7, addr, 16),
        None => None,
    }
}

/// LDH [a8], A.
#[verifier::opaque]
pub open spec fn store_a_high(c: CpuView, b: BusView) -> Outcome {
    match fetch8(c, b) {
        Some((c1, b1, v)) => store(c1, b1, (0xFF00 + v) as u16, c.a, 12),
        None => None,
    }
}

/// LDH A, [a8].
#[verifier::opaque]
pub open spec fn load_a_high(c: CpuView, b: BusView) -> Outcome {
    match fetch8(c, b) {
        Some((c1, b1, v)) => load(c1, b1, 7, (0xFF00 + v) as u16, 12),
        None => None,
    }
}

/// LD [a16], SP: the low byte at a16, the high byte at a16 + 1.
#[verifier::opaque]
pub open spec fn store_sp_abs(c: CpuView, b: BusView) -> Outcome {
    match fetch16(c, b) {
        Some((c1, b1, addr)) => match b1.write(addr, lo(c1.sp)) {
            Some(b2) => if addr == 0xFFFF {
                None
            } else {
                store(c1, b2, (addr + 1) as u16, hi(c1.sp), 20)
            },
            None => None,
        },
        None => None,
    }
}

/// LD HL, SP+e8.
#[verifier::opaque]
pub open spec fn load_hl_sp_offset(c: CpuView, b: BusView) -> Outcome {
    match fetch8(c, b) {
        Some((c1, b1, v)) => Some((ld_hl_sp(c1, v), b1, 12)),
        None => None,
    }
}

/// ADD SP, e8.
#[verifier::opaque]
pub open spec fn add_sp_offset(c: CpuView, b: BusView) -> Outcome {
    match fetch8(c, b) {
        Some((c1, b1, v)) => Some((add_sp(c1, v), b1, 16)),
        None => None,
    }
}

/// An ALU operation with the byte at HL.
#[verifier::opaque]
pub open spec fn alu_hl(c: CpuView, b: BusView, op: int) -> Outcome {
    match b.read(c.hl) {
        Some((b1, v)) => Some((alu(c, op, v), b1, 8)),
        None => None,
    }
}

/// An ALU operation with an immediate byte.
#[verifier::opaque]
pub open spec fn alu_imm(c: CpuView, b: BusView, op: int) -> Outcome {
    match fetch8(c, b) {
        Some((c1, b1, v)) => Some((alu(c1, op, v), b1, 8)),
        None => None,
    }
}

/// INC [HL].
#[verifier::opaque]
pub open spec fn inc_hl(c: CpuView, b: BusView) -> Outcome {
    match b.read(c.hl) {
        Some((b1, v)) => store(inc8(c, v).0, b1, c.hl, inc8(c, v).1, 12),
        None => None,
    }
}

/// DEC [HL].
#[verifier::opaque]
pub open spec fn dec_hl(c: CpuView, b: BusView) -> Outcome {
    match b.read(c.hl) {
        Some((b1, v)) => store(dec8(c, v).0, b1, c.hl, dec8(c, v).1, 12),
        None => None,
    }
}

/// POP of pair `p` (0 BC, 1 DE, 2 HL).
#[verifier::opaque]
pub open spec fn pop_pair(c: CpuView, b: BusView, p: int) -> Outcome {
    match pop16(c, b) {
        Some((c1, b1, w)) => Some((c1.with_rp(p, w), b1, 12)),
        None => None,
    }
}

/// POP AF: the flags from bits 7-4 of the first byte (the low nibble of F is
/// kept), A from the second.
#[verifier::opaque]
pub open spec fn pop_af(c: CpuView, b: BusView) -> Outcome {
    match pop8(c, b) {
        Some((c1, b1, f)) => match pop8(c1, b1) {
            Some((c2, b2, a)) => Some(
                (
                    CpuView {
                        a: a,
                        ..c2.with_flags(
                            (f / 128) % 2 == 1,
                            (f / 64) % 2 == 1,
                            (f / 32) % 2 == 1,
                            (f / 16) % 2 == 1,
                        )
                    },
                    b2,
                    12,
                ),
            ),
            None => None,
        },
        None => None,
    }
}

/// PUSH of pair `p` (0 BC, 1 DE, 2 HL).
#[verifier::opaque]
pub open spec fn push_pair(c: CpuView, b: BusView, p: int) -> Outcome {
    match push16(c, b, c.rp(p)) {
        Some((c1, b1)) => Some((c1, b1, 16)),
        None => None,
    }
}

/// PUSH AF: A, then the flag byte.
#[verifier::opaque]
pub open spec fn push_af(c: CpuView, b: BusView) -> Outcome {
    match push8(c, b, c.a) {
        Some((c1, b1)) => match push8(c1, b1, flag_byte(c)) {
            Some((c2, b2)) => Some((c2, b2, 16)),
            None => None,
        },
        None => None,
    }
}

/// JP a16.
#[verifier::opaque]
pub open spec fn jump_abs(c: CpuView, b: BusView) -> Outcome {
    match fetch16(c, b) {
        Some((c1, b1, addr)) => Some((c1.with_pc(addr), b1, 16)),
        None => None,
    }
}

/// JP cc, a16: the address is read either way.
#[verifier::opaque]
pub open spec fn jump_abs_if(c: CpuView, b: BusView, cc: int) -> Outcome {
    match fetch16(c, b) {
        Some((c1, b1, addr)) => if c.cond(cc) {
            Some((c1.with_pc(addr), b1, 16))
        } else {
            Some((c1, b1, 12))
        },
        None => None,
    }
}

/// JR e8.
#[verifier::opaque]
pub open spec fn jump_rel(c: CpuView, b: BusView) -> Outcome {
    match fetch8(c, b) {
        Some((c1, b1, v)) => Some((c1.with_pc(wrap16(c1.pc + signed(v))), b1, 12)),
        None => None,
    }
}

/// JR cc, e8.
#[verifier::opaque]
pub open spec fn jump_rel_if(c: CpuView, b: BusView, cc: int) -> Outcome {
    match fetch8(c, b) {
        Some((c1, b1, v)) => if c.cond(cc) {
            Some((c1.with_pc(wrap16(c1.pc + signed(v))), b1, 12))
        } else {
            Some((c1, b1, 8))
        },
        None => None,
    }
}

/// Pushes PC and jumps to `addr`.
#[verifier::opaque]
pub open spec fn call_to(c: CpuView, b: BusView, addr: u16, t: u32) -> Outcome {
    match push16(c, b, c.pc) {
        Some((c1, b1)) => Some((c1.with_pc(addr), b1, t)),
        None => None,
    }
}

/// CALL a16.
#[verifier::opaque]
pub open spec fn call(c: CpuView, b: BusView) -> Outcome {
    match fetch16(c, b) {
        Some((c1, b1, addr)) => call_to(c1, b1, addr, 24),
        None => None,
    }
}

/// CALL cc, a16: the address is read either way.
#[verifier::opaque]
pub open spec fn call_if(c: CpuView, b: BusView, cc: int) -> Outcome {
    match fetch16(c, b) {
        Some((c1, b1, addr)) => if c.cond(cc) {
            call_to(c1, b1, addr, 24)
        } else {
            Some((c1, b1, 12))
        },
        None => None,
    }
}

/// Pops PC.
#[verifier::opaque]
pub open spec fn ret_with(c: CpuView, b: BusView, t: u32) -> Outcome {
    match pop16(c, b) {
        Some((c1, b1, addr)) => Some((c1.with_pc(addr), b1, t)),
        None => None,
    }
}

/// RET cc.
#[verifier::opaque]
pub open spec fn ret_if(c: CpuView, b: BusView, cc: int) -> Outcome {
    if c.cond(cc) {
        ret_with(c, b, 20)
    } else {
        Some((c, b, 8))
    }
}

/// RETI: IME set, then RET.
#[verifier::opaque]
pub open spec fn reti(c: CpuView, b: BusView) -> Outcome {
    ret_with(CpuView { ime: 1, ..c }, b, 16)
}

/// STOP: skips the next byte; takes no cycles.
pub open spec fn stop(c: CpuView, b: BusView) -> Outcome {
    if c.pc == 0xFFFF {
        None
    } else {
        Some((c.with_pc((c.pc + 1) as u16), b, 0))
    }
}

/// A prefixed rotate/shift of the byte at HL; SRA takes 8 cycles, the others
/// 16.
#[verifier::opaque]
pub open spec fn shift_hl(c: CpuView, b: BusView, op: int) -> Outcome {
    match b.read(c.hl) {
        Some((b1, v)) => store(
            shift(c, op, v).0,
            b1,
            c.hl,
            shift(c, op, v).1,
            if op == 5 {
                8
            } else {
                16
            },
        ),
        None => None,
    }
}

/// BIT n, [HL].
#[verifier::opaque]
pub open spec fn bit_hl(c: CpuView, b: BusView, n: int) -> Outcome {
    match b.read(c.hl) {
        Some((b1, v)) => Some((bit_test(c, n, v), b1, 12)),
        None => None,
    }
}

/// RES n, [HL].
#[verifier::opaque]
pub open spec fn res_hl(c: CpuView, b: BusView, n: int) -> Outcome {
    match b.read(c.hl) {
        Some((b1, v)) => store(c, b1, c.hl, res_bit(v, n), 16),
        None => None,
    }
}

/// SET n, [HL].
#[verifier::opaque]
pub open spec fn set_hl(c: CpuView, b: BusView, n: int) -> Outcome {
    match b.read(c.hl) {
        Some((b1, v)) => store(c, b1, c.hl, set_bit(v, n), 16),
        None => None,
    }
}

pub open spec fn reg_only(c: CpuView, b: BusView, t: u32) -> Outcome {
    Some((c, b, t))
}

// ---------------------------------------------------------------------------
// Decoding.
/// The prefixed instruction `op` (the byte after 0xCB).
#[verifier::opaque]
pub open spec fn exec_prefixed(op: u8, c: CpuView, b: BusView) -> Outcome {
    let x = op / 64;
    let y = ((op / 8) % 8) as int;
    let z = (op % 8) as int;
    if x == 0 {
        if z == 6 {
            shift_hl(c, b, y)
        } else {
            reg_only(shift_reg(c, y, z), b, 8)
        }
    } else if x == 1 {
        if z == 6 {
            bit_hl(c, b, y)
        } else {
            reg_only(bit_test(c, y, c.reg8(z)), b, 8)
        }
    } else if x == 2 {
        if z == 6 {
            res_hl(c, b, y)
        } else {
            reg_only(c.with_reg8(z, res_bit(c.reg8(z), y)), b, 8)
        }
    } else {
        if z == 6 {
            set_hl(c, b, y)
        } else {
            reg_only(c.with_reg8(z, set_bit(c.reg8(z), y)), b, 8)
        }
    }
}

/// The 0xCB prefix: reads the next byte and runs it.
#[verifier::opaque]
pub open spec fn prefixed(c: CpuView, b: BusView) -> Outcome {
    match fetch8(c, b) {
        Some((c1, b1, op)) => exec_prefixed(op, c1, b1),
        None => None,
    }
}

/// Opcodes 0x00..=0x3F.
#[verifier::opaque]
pub open spec fn exec_block0(op: u8, c: CpuView, b: BusView) -> Outcome {
    let y = ((op / 8) % 8) as int;
    let z = (op % 8) as int;
    let p = y / 2;
    let q = y % 2;
    if z == 0 {
        if y == 0 {
            reg_only(c, b, 4)
        } else if y == 1 {
            store_sp_abs(c, b)
        } else if y == 2 {
            stop(c, b)
        } else if y == 3 {
            jump_rel(c, b)
        } else {
            jump_rel_if(c, b, y - 4)
        }
    } else if z == 1 {
        if q == 0 {
            load_imm16(c, b, p)
        } else {
            reg_only(add_hl(c, c.rp(p)), b, 8)
        }
    } else if z == 2 {
        if q == 0 {
            if p == 0 {
                store(c, b, c.bc, c.a, 8)
            } else if p == 1 {
                store(c, b, c.de, c.a, 8)
            } else if p == 2 {
                store_a_hl_step(c, b, 1)
            } else {
                store_a_hl_step(c, b, -1)
            }
        } else {
            if p == 0 {
                load(c, b, 7, c.bc, 8)
            } else if p == 1 {
                load(c, b, 7, c.de, 8)
            } else if p == 2 {
                load_a_hl_step(c, b, 1)
            } else {
                load_a_hl_step(c, b, -1)
            }
        }
    } else if z == 3 {
        if q == 0 {
            reg_only(c.with_rp(p, wrap16(c.rp(p) + 1)), b, 8)
        } else {
            reg_only(c.with_rp(p, wrap16(c.rp(p) - 1)), b, 8)
        }
    } else if z == 4 {
        if y == 6 {
            inc_hl(c, b)
        } else {
            reg_only(inc_reg(c, y), b, 4)
        }
    } else if z == 5 {
        if y == 6 {
            dec_hl(c, b)
        } else {
            reg_only(dec_reg(c, y), b, 4)
        }
    } else if z == 6 {
        if y == 6 {
            store_imm_hl(c, b)
        } else {
            load_imm(c, b, y)
        }
    } else {
        if y < 4 {
            reg_only(rotate_a(c, y), b, 4)
        } else if y == 4 {
            reg_only(daa(c), b, 4)
        } else if y == 5 {
            reg_only(cpl(c), b, 4)
        } else if y == 6 {
            reg_only(scf(c), b, 4)
        } else {
            reg_only(ccf(c), b, 4)
        }
    }
}

/// Opcodes 0x40..=0x7F: the loads between registers and [HL]. 0x76 (HALT)
/// is not implemented.
#[verifier::opaque]
pub open spec fn exec_block1(op: u8, c: CpuView, b: BusView) -> Outcome {
    let y = ((op / 8) % 8) as int;
    let z = (op % 8) as int;
    if op == 0x76 {
        None
    } else if z == 6 {
        load(c, b, y, c.hl, 8)
    } else if y == 6 {
        store(c, b, c.hl, c.reg8(z), 8)
    } else {
        reg_only(c.with_reg8(y, c.reg8(z)), b, 4)
    }
}

/// Opcodes 0x80..=0xBF: the ALU with a register or [HL].
#[verifier::opaque]
pub open spec fn exec_block2(op: u8, c: CpuView, b: BusView) -> Outcome {
    let y = ((op / 8) % 8) as int;
    let z = (op % 8) as int;
    if z == 6 {
        alu_hl(c, b, y)
    } else {
        reg_only(alu(c, y, c.reg8(z)), b, 4)
    }
}

/// Opcodes 0xC0..=0xFF. The eleven opcodes that the CPU lacks (0xD3, 0xDB,
/// 0xDD, 0xE3, 0xE4, 0xEB, 0xEC, 0xED, 0xF4, 0xFC, 0xFD) have no outcome.
#[verifier::opaque]
pub open spec fn exec_block3(op: u8, c: CpuView, b: BusView) -> Outcome {
    let y = ((op / 8) % 8) as int;
    let z = (op % 8) as int;
    let p = y / 2;
    let q = y % 2;
    if z == 0 {
        if y < 4 {
            ret_if(c, b, y)
        } else if y == 4 {
            store_a_high(c, b)
        } else if y == 5 {
            add_sp_offset(c, b)
        } else if y == 6 {
            load_a_high(c, b)
        } else {
            load_hl_sp_offset(c, b)
        }
    } else if z == 1 {
        if q == 0 {
            if p < 3 {
                pop_pair(c, b, p)
            } else {
                pop_af(c, b)
            }
        } else {
            if p == 0 {
                ret_with(c, b, 16)
            } else if p == 1 {
                reti(c, b)
            } else if p == 2 {
                reg_only(c.with_pc(c.hl), b, 4)
            } else {
                reg_only(c.with_sp(c.hl), b, 8)
            }
        }
    } else if z == 2 {
        if y < 4 {
            jump_abs_if(c, b, y)
        } else if y == 4 {
            store(c, b, (0xFF00 + c.c()) as u16, c.a, 8)
        } else if y == 5 {
            store_a_abs(c, b)
        } else if y == 6 {
            load(c, b, 7, (0xFF00 + c.c()) as u16, 8)
        } else {
            load_a_abs(c, b)
        }
    } else if z == 3 {
        if y == 0 {
            jump_abs(c, b)
        } else if y == 1 {
            prefixed(c, b)
        } else if y == 6 {
            reg_only(CpuView { ime: 0, ..c }, b, 4)
        } else if y == 7 {
            reg_only(CpuView { ime: 1, ..c }, b, 4)
        } else {
            None
        }
    } else if z == 4 {
        if y < 4 {
            call_if(c, b, y)
        } else {
            None
        }
    } else if z == 5 {
        if q == 0 {
            if p < 3 {
                push_pair(c, b, p)
            } else {
                push_af(c, b)
            }
        } else if p == 0 {
            call(c, b)
        } else {
            None
        }
    } else if z == 6 {
        alu_imm(c, b, y)
    } else {
        call_to(c, b, (y * 8) as u16, 16)
    }
}

/// The instruction `op`, run on the state after the opcode has been read.
pub open spec fn exec(op: u8, c: CpuView, b: BusView) -> Outcome {
    if op < 0x40 {
        exec_block0(op, c, b)
    } else if op < 0x80 {
        exec_block1(op, c, b)
    } else if op < 0xC0 {
        exec_block2(op, c, b)
    } else {
        exec_block3(op, c, b)
    }
}

/// One step of the CPU: read the opcode at PC, move PC on, run the
/// instruction and add its cycles to the cycle counter. The result carries
/// the cycles that the instruction took.
pub open spec fn step(c: CpuView, b: BusView) -> Outcome {
    match fetch8(c, b) {
        Some((c1, b1, op)) => match exec(op, c1, b1) {
            Some((c2, b2, t)) => if c2.t_states + t > u32::MAX {
                None
            } else {
                Some((CpuView { t_states: (c2.t_states + t) as u32, ..c2 }, b2, t))
            },
            None => None,
        },
        None => None,
    }
}

/// Whether an outcome, where there is one, took at least one cycle.
pub open spec fn takes_time(o: Outcome) -> bool {
    match o {
        Some((_, _, t)) => t > 0,
        None => true,
    }
}

proof fn lemma_time_leaves()
    ensures
        forall|c: CpuView, b: BusView, r: int, addr: u16, t: u32| #![trigger load(c, b, r, addr, t)] t > 0 ==> takes_time(load(c, b, r, addr, t)),
        forall|c: CpuView, b: BusView, addr: u16, v: u8, t: u32| #![trigger store(c, b, addr, v, t)] t > 0 ==> takes_time(store(c, b, addr, v, t)),
        forall|c: CpuView, b: BusView, addr: u16, t: u32| #![trigger call_to(c, b, addr, t)] t > 0 ==> takes_time(call_to(c, b, addr, t)),
        forall|c: CpuView, b: BusView, t: u32| #![trigger ret_with(c, b, t)] t > 0 ==> takes_time(ret_with(c, b, t)),
{
    reveal(load);
    reveal(store);
    reveal(call_to);
    reveal(ret_with);
}

proof fn lemma_time_families()
    ensures
        forall|c: CpuView, b: BusView, r: int| #![trigger load_imm(c, b, r)] takes_time(load_imm(c, b, r)),
        forall|c: CpuView, b: BusView, p: int| #![trigger load_imm16(c, b, p)] takes_time(load_imm16(c, b, p)),
        forall|c: CpuView, b: BusView| #![trigger store_imm_hl(c, b)] takes_time(store_imm_hl(c, b)),
        forall|c: CpuView, b: BusView, step: int| #![trigger store_a_hl_step(c, b, step)] takes_time(store_a_hl_step(c, b, step)),
        forall|c: CpuView, b: BusView, step: int| #![trigger load_a_hl_step(c, b, step)] takes_time(load_a_hl_step(c, b, step)),
        forall|c: CpuView, b: BusView| #![trigger store_a_abs(c, b)] takes_time(store_a_abs(c, b)),
        forall|c: CpuView, b: BusView| #![trigger load_a_abs(c, b)] takes_time(load_a_abs(c, b)),
        forall|c: CpuView, b: BusView| #![trigger store_a_high(c, b)] takes_time(store_a_high(c, b)),
        forall|c: CpuView, b: BusView| #![trigger load_a_high(c, b)] takes_time(load_a_high(c, b)),
        forall|c: CpuView, b: BusView| #![trigger store_sp_abs(c, b)] takes_time(store_sp_abs(c, b)),
        forall|c: CpuView, b: BusView| #![trigger load_hl_sp_offset(c, b)] takes_time(load_hl_sp_offset(c, b)),
        forall|c: CpuView, b: BusView| #![trigger add_sp_offset(c, b)] takes_time(add_sp_offset(c, b)),
        forall|c: CpuView, b: BusView, op: int| #![trigger alu_hl(c, b, op)] takes_time(alu_hl(c, b, op)),
        forall|c: CpuView, b: BusView, op: int| #![trigger alu_imm(c, b, op)] takes_time(alu_imm(c, b, op)),
        forall|c: CpuView, b: BusView| #![trigger inc_hl(c, b)] takes_time(inc_hl(c, b)),
        forall|c: CpuView, b: BusView| #![trigger dec_hl(c, b)] takes_time(dec_hl(c, b)),
        forall|c: CpuView, b: BusView, p: int| #![trigger pop_pair(c, b, p)] takes_time(pop_pair(c, b, p)),
        forall|c: CpuView, b: BusView| #![trigger pop_af(c, b)] takes_time(pop_af(c, b)),
        forall|c: CpuView, b: BusView, p: int| #![trigger push_pair(c, b, p)] takes_time(push_pair(c, b, p)),
        forall|c: CpuView, b: BusView| #![trigger push_af(c, b)] takes_time(push_af(c, b)),
        forall|c: CpuView, b: BusView| #![trigger jump_abs(c, b)] takes_time(jump_abs(c, b)),
        forall|c: CpuView, b: BusView, cc: int| #![trigger jump_abs_if(c, b, cc)] takes_time(jump_abs_if(c, b, cc)),
        forall|c: CpuView, b: BusView| #![trigger jump_rel(c, b)] takes_time(jump_rel(c, b)),
        forall|c: CpuView, b: BusView, cc: int| #![trigger jump_rel_if(c, b, cc)] takes_time(jump_rel_if(c, b, cc)),
        forall|c: CpuView, b: BusView| #![trigger call(c, b)] takes_time(call(c, b)),
        forall|c: CpuView, b: BusView, cc: int| #![trigger call_if(c, b, cc)] takes_time(call_if(c, b, cc)),
        forall|c: CpuView, b: BusView, cc: int| #![trigger ret_if(c, b, cc)] takes_time(ret_if(c, b, cc)),
        forall|c: CpuView, b: BusView| #![trigger reti(c, b)] takes_time(reti(c, b)),
        forall|c: CpuView, b: BusView, op: int| #![trigger shift_hl(c, b, op)] takes_time(shift_hl(c, b, op)),
        forall|c: CpuView, b: BusView, n: int| #![trigger bit_hl(c, b, n)] takes_time(bit_hl(c, b, n)),
        forall|c: CpuView, b: BusView, n: int| #![trigger res_hl(c, b, n)] takes_time(res_hl(c, b, n)),
        forall|c: CpuView, b: BusView, n: int| #![trigger set_hl(c, b, n)] takes_time(set_hl(c, b, n)),
        forall|op: u8, c: CpuView, b: BusView| #![trigger exec_prefixed(op, c, b)] takes_time(exec_prefixed(op, c, b)),
        forall|c: CpuView, b: BusView| #![trigger prefixed(c, b)] takes_time(prefixed(c, b)),
{
    lemma_time_leaves();
    reveal(load_imm);
    reveal(load_imm16);
    reveal(store_imm_hl);
    reveal(store_a_hl_step);
    reveal(load_a_hl_step);
    reveal(store_a_abs);
    reveal(load_a_abs);
    reveal(store_a_high);
    reveal(load_a_high);
    reveal(store_sp_abs);
    reveal(load_hl_sp_offset);
    reveal(add_sp_offset);
    reveal(alu_hl);
    reveal(alu_imm);
    reveal(inc_hl);
    reveal(dec_hl);
    reveal(pop_pair);
    reveal(pop_af);
    reveal(push_pair);
    reveal(push_af);
    reveal(jump_abs);
    reveal(jump_abs_if);
    reveal(jump_rel);
    reveal(jump_rel_if);
    reveal(call);
    reveal(call_if);
    reveal(ret_if);
    reveal(reti);
    reveal(shift_hl);
    reveal(bit_hl);
    reveal(res_hl);
    reveal(set_hl);
    reveal(exec_prefixed);
    reveal(prefixed);
}

/// Every instruction but STOP (0x10) takes at least one cycle.
proof fn lemma_exec_time(op: u8, c: CpuView, b: BusView)
    requires
        op != 0x10,
    ensures
        takes_time(exec(op, c, b)),
{
    lemma_time_families();
    lemma_time_leaves();
    reveal(exec_block0);
    reveal(exec_block1);
    reveal(exec_block2);
    reveal(exec_block3);
}

/// A step either takes at least one cycle or is a STOP, which takes none
/// and moves PC on by two.
pub proof fn lemma_step_progress(c: CpuView, b: BusView)
    ensures
        step(c, b) matches Some((c2, b2, t)) ==> t > 0 || c2.pc == c.pc + 2,
{
    if let Some((c1, b1, op)) = fetch8(c, b) {
        if op == 0x10 {
            reveal(exec_block0);
            assert(exec(op, c1, b1) == stop(c1, b1));
        } else {
            lemma_exec_time(op, c1, b1);
        }
    }
}

/// Writing register `r` and reading it back gives the value written.
proof fn lemma_reg8_write_read(c: CpuView, r: int, v: u8)
    ensures
        c.with_reg8(r, v).reg8(r) == v,
{
}

/// DEC undoes INC on a register (B, C, D, E, H, L, A).
pub proof fn lemma_dec_undoes_inc(c: CpuView, r: int)
    requires
        0 <= r <= 7,
        r != 6,
    ensures
        dec_reg(inc_reg(c, r), r).reg8(r) == c.reg8(r),
{
    reveal(inc_reg);
    reveal(dec_reg);
    let v = c.reg8(r);
    lemma_reg8_write_read(inc8(c, v).0, r, inc8(c, v).1);
    let c1 = inc_reg(c, r);
    lemma_reg8_write_read(dec8(c1, c1.reg8(r)).0, r, dec8(c1, c1.reg8(r)).1);
}

/// SWAP twice gives a register back.
#[verifier::rlimit(50)]
pub proof fn lemma_swap_twice(c: CpuView, r: int)
    requires
        0 <= r <= 7,
        r != 6,
    ensures
        shift_reg(shift_reg(c, 6, r), 6, r).reg8(r) == c.reg8(r),
{
    reveal(shift_reg);
    let v = c.reg8(r);
    lemma_reg8_write_read(shift(c, 6, v).0, r, shift(c, 6, v).1);
    let c1 = shift_reg(c, 6, r);
    lemma_reg8_write_read(shift(c1, 6, c1.reg8(r)).0, r, shift(c1, 6, c1.reg8(r)).1);
}

proof fn lemma_rotate_back(v: u8)
    ensures
        ({
            let r = ((v * 2) % 256 + v / 128) as u8;
            (r / 2 + (r % 2) * 128) as u8 == v
        }),
{
    if v < 128 {
        assert((v * 2) % 256 == v * 2);
    } else {
        assert((v * 2) % 256 == v * 2 - 256);
    }
}

/// RRC undoes RLC on a register.
pub proof fn lemma_rrc_undoes_rlc(c: CpuView, r: int)
    requires
        0 <= r <= 7,
        r != 6,
    ensures
        shift_reg(shift_reg(c, 0, r), 1, r).reg8(r) == c.reg8(r),
{
    reveal(shift_reg);
    let v = c.reg8(r);
    lemma_rotate_back(v);
    lemma_reg8_write_read(shift(c, 0, v).0, r, shift(c, 0, v).1);
    let c1 = shift_reg(c, 0, r);
    lemma_reg8_write_read(shift(c1, 1, c1.reg8(r)).0, r, shift(c1, 1, c1.reg8(r)).1);
}

/// CPL twice gives A back.
pub proof fn lemma_cpl_twice(c: CpuView)
    ensures
        cpl(cpl(c)).a == c.a,
{
    reveal(cpl);
}

/// After SET n the bit tests as set, after RES n as clear.
pub proof fn lemma_bit_after_set_res(v: u8, n: int)
    requires
        0 <= n < 8,
    ensures
        bit_set(set_bit(v, n), n),
        !bit_set(res_bit(v, n), n),
{
    reveal(set_bit);
    reveal(res_bit);
    let k = n as u8;
    assert((v | (1u8 << k)) >> k & 1 == 1 && (v & !(1u8 << k)) >> k & 1 == 0) by (bit_vector)
        requires
            k < 8,
    ;
}

/// The stack bytes below SP lie in internal memory.
pub open spec fn stack_in_memory(c: CpuView) -> bool {
    c.sp >= 2 && is_memory((c.sp - 1) as u16) && is_memory((c.sp - 2) as u16)
}

/// Pushing `w` and popping a word gives `w` back, with SP where it was.
proof fn lemma_push16_pop16(c: CpuView, b: BusView, w: u16)
    requires
        b.sized(),
        stack_in_memory(c),
    ensures
        push16(c, b, w) matches Some((c1, b1)) && (pop16(c1, b1) matches Some((c2, b2, v)) && v
            == w && c2 == c && b2.sized()),
{
    let a1 = (c.sp - 1) as u16;
    let a2 = (c.sp - 2) as u16;
    lemma_memory_write_read(b, a1, hi(w));
    let b1 = b.write(a1, hi(w)).unwrap();
    lemma_memory_write_read(b1, a2, lo(w));
    lemma_memory_write_other(b1, a2, a1, lo(w));
    assert(word(hi(w), lo(w)) == w);
}

/// POP into pair `q` gives back what PUSH of pair `p` stored, and SP
/// returns, where the two stack bytes lie in internal memory: pair `q` then
/// holds pair `p`'s value and nothing else has changed.
pub proof fn lemma_push_pop(c: CpuView, b: BusView, p: int, q: int)
    requires
        0 <= p < 3,
        0 <= q < 3,
        b.sized(),
        stack_in_memory(c),
    ensures
        push_pair(c, b, p) matches Some((c1, b1, t)) && (pop_pair(c1, b1, q) matches Some(
            (c2, b2, t2),
        ) && c2 == c.with_rp(q, c.rp(p)) && t == 16 && t2 == 12),
{
    reveal(push_pair);
    reveal(pop_pair);
    lemma_push16_pop16(c, b, c.rp(p));
}

/// POP AF gives back what PUSH AF stored: A, the four flags and, kept by
/// both, the low nibble of F.
pub proof fn lemma_push_pop_af(c: CpuView, b: BusView)
    requires
        b.sized(),
        stack_in_memory(c),
    ensures
        push_af(c, b) matches Some((c1, b1, t)) && (pop_af(c1, b1) matches Some((c2, b2, t2))
            && c2 == c && t == 16 && t2 == 12),
{
    reveal(push_af);
    reveal(pop_af);
    let a1 = (c.sp - 1) as u16;
    let a2 = (c.sp - 2) as u16;
    let f = flag_byte(c);
    lemma_memory_write_read(b, a1, c.a);
    let b1 = b.write(a1, c.a).unwrap();
    lemma_memory_write_read(b1, a2, f);
    lemma_memory_write_other(b1, a2, a1, f);
    assert((f / 128) % 2 == 1 <==> c.zf);
    assert((f / 64) % 2 == 1 <==> c.nf);
    assert((f / 32) % 2 == 1 <==> c.hf);
    assert((f / 16) % 2 == 1 <==> c.cf);
}

/// CALL a16 then RET comes back just past the CALL's operand, with every
/// register as before the CALL; they take 24 and 16 cycles.
pub proof fn lemma_call_ret(c: CpuView, b: BusView)
    requires
        b.sized(),
        stack_in_memory(c),
    ensures
        call(c, b) matches Some((c1, b1, t)) ==> (ret_with(c1, b1, 16) matches Some((c2, b2, t2))
            && c2 == c.with_pc((c.pc + 2) as u16) && t == 24 && t2 == 16),
{
    reveal(call);
    reveal(call_to);
    reveal(ret_with);
    if let Some((c0, b0, addr)) = fetch16(c, b) {
        if let Some((c01, b01, l)) = fetch8(c, b) {
            lemma_read_changes_only_ramg(b, c.pc);
            lemma_read_changes_only_ramg(b01, c01.pc);
        }
        lemma_push16_pop16(c0, b0, c0.pc);
    }
}

proof fn lemma_rotate_through_carry(v: u8, cf: bool)
    ensures
        ({
            let r1 = ((v * 2) % 256 + b2i(cf)) as u8;
            &&& ((r1 / 2 + b2i(v / 128 == 1) * 128) as u8) == v
            &&& (r1 % 2 == 1) == cf
        }),
{
    if v < 128 {
        assert((v * 2) % 256 == v * 2);
    } else {
        assert((v * 2) % 256 == v * 2 - 256);
    }
}

/// RR undoes RL on a register: the register and the carry flag come back,
/// Z tells whether the register is 0, N and H are cleared.
pub proof fn lemma_rr_undoes_rl(c: CpuView, r: int)
    requires
        0 <= r <= 7,
        r != 6,
    ensures
        ({
            let c2 = shift_reg(shift_reg(c, 2, r), 3, r);
            &&& c2.reg8(r) == c.reg8(r)
            &&& c2.cf == c.cf
            &&& c2.zf == (c.reg8(r) == 0)
            &&& !c2.nf && !c2.hf
        }),
{
    reveal(shift_reg);
    let v = c.reg8(r);
    lemma_rotate_through_carry(v, c.cf);
    lemma_reg8_write_read(shift(c, 2, v).0, r, shift(c, 2, v).1);
    let c1 = shift_reg(c, 2, r);
    lemma_reg8_write_read(shift(c1, 3, c1.reg8(r)).0, r, shift(c1, 3, c1.reg8(r)).1);
}

/// SWAP exchanges a register's nibbles, sets Z when it is 0 and clears N,
/// H and C; nothing else changes.
pub proof fn lemma_swap_nibbles(c: CpuView, r: int)
    requires
        0 <= r <= 7,
        r != 6,
    ensures
        ({
            let v = c.reg8(r);
            let w = ((v % 16) * 16 + v / 16) as u8;
            shift_reg(c, 6, r) == c.with_flags(v == 0, false, false, false).with_reg8(r, w)
        }),
{
    reveal(shift_reg);
}

/// Every prefixed opcode has an instruction: on a register it always has
/// an outcome, taking 8 cycles; on the byte at HL it has one where HL
/// addresses internal memory.
pub proof fn lemma_prefixed_total(op: u8, c: CpuView, b: BusView)
    requires
        b.sized(),
    ensures
        op % 8 != 6 ==> (exec_prefixed(op, c, b) matches Some((c2, b2, t)) && b2 == b && t == 8),
        op % 8 == 6 && is_memory(c.hl) ==> exec_prefixed(op, c, b) is Some,
{
    reveal(exec_prefixed);
    reveal(shift_hl);
    reveal(bit_hl);
    reveal(res_hl);
    reveal(set_hl);
    reveal(store);
}

/// `c2` has the cycle counter and the low nibble of F of `c`.
pub open spec fn keeps_counter(c: CpuView, c2: CpuView) -> bool {
    c2.t_states == c.t_states && c2.f_low == c.f_low
}

/// An outcome, where there is one, took at most 24 cycles and kept the
/// cycle counter and the low nibble of F of `c`.
pub open spec fn well_timed(c: CpuView, o: Outcome) -> bool {
    match o {
        Some((c2, _, t)) => t <= 24 && keeps_counter(c, c2),
        None => true,
    }
}

proof fn lemma_transforms_keep()
    ensures
        forall|c: CpuView, op: int, v: u8| #![trigger alu(c, op, v)] keeps_counter(c, alu(c, op, v)),
        forall|c: CpuView, r: int| #![trigger inc_reg(c, r)] keeps_counter(c, inc_reg(c, r)),
        forall|c: CpuView, r: int| #![trigger dec_reg(c, r)] keeps_counter(c, dec_reg(c, r)),
        forall|c: CpuView, op: int, r: int| #![trigger shift_reg(c, op, r)] keeps_counter(c, shift_reg(c, op, r)),
        forall|c: CpuView, op: int| #![trigger rotate_a(c, op)] keeps_counter(c, rotate_a(c, op)),
        forall|c: CpuView| #![trigger daa(c)] keeps_counter(c, daa(c)),
        forall|c: CpuView| #![trigger cpl(c)] keeps_counter(c, cpl(c)),
        forall|c: CpuView| #![trigger scf(c)] keeps_counter(c, scf(c)),
        forall|c: CpuView| #![trigger ccf(c)] keeps_counter(c, ccf(c)),
        forall|c: CpuView, w: u16| #![trigger add_hl(c, w)] keeps_counter(c, add_hl(c, w)),
        forall|c: CpuView, n: int, v: u8| #![trigger bit_test(c, n, v)] keeps_counter(c, bit_test(c, n, v)),
{
    reveal(alu);
    reveal(inc_reg);
    reveal(dec_reg);
    reveal(shift_reg);
    reveal(rotate_a);
    reveal(daa);
    reveal(cpl);
    reveal(scf);
    reveal(ccf);
    reveal(bit_test);
    reveal(add_hl);
}

proof fn lemma_timed_leaves()
    ensures
        forall|c: CpuView, b: BusView, r: int, addr: u16, t: u32| #![trigger load(c, b, r, addr, t)] t <= 24 ==> well_timed(c, load(c, b, r, addr, t)),
        forall|c: CpuView, b: BusView, addr: u16, v: u8, t: u32| #![trigger store(c, b, addr, v, t)] t <= 24 ==> well_timed(c, store(c, b, addr, v, t)),
        forall|c: CpuView, b: BusView, addr: u16, t: u32| #![trigger call_to(c, b, addr, t)] t <= 24 ==> well_timed(c, call_to(c, b, addr, t)),
        forall|c: CpuView, b: BusView, t: u32| #![trigger ret_with(c, b, t)] t <= 24 ==> well_timed(c, ret_with(c, b, t)),
{
    reveal(load);
    reveal(store);
    reveal(call_to);
    reveal(ret_with);
}

proof fn lemma_timed_families()
    ensures
        forall|c: CpuView, b: BusView, r: int| #![trigger load_imm(c, b, r)] well_timed(c, load_imm(c, b, r)),
        forall|c: CpuView, b: BusView, p: int| #![trigger load_imm16(c, b, p)] well_timed(c, load_imm16(c, b, p)),
        forall|c: CpuView, b: BusView| #![trigger store_imm_hl(c, b)] well_timed(c, store_imm_hl(c, b)),
        forall|c: CpuView, b: BusView, step: int| #![trigger store_a_hl_step(c, b, step)] well_timed(c, store_a_hl_step(c, b, step)),
        forall|c: CpuView, b: BusView, step: int| #![trigger load_a_hl_step(c, b, step)] well_timed(c, load_a_hl_step(c, b, step)),
        forall|c: CpuView, b: BusView| #![trigger store_a_abs(c, b)] well_timed(c, store_a_abs(c, b)),
        forall|c: CpuView, b: BusView| #![trigger load_a_abs(c, b)] well_timed(c, load_a_abs(c, b)),
        forall|c: CpuView, b: BusView| #![trigger store_a_high(c, b)] well_timed(c, store_a_high(c, b)),
        forall|c: CpuView, b: BusView| #![trigger load_a_high(c, b)] well_timed(c, load_a_high(c, b)),
        forall|c: CpuView, b: BusView| #![trigger store_sp_abs(c, b)] well_timed(c, store_sp_abs(c, b)),
        forall|c: CpuView, b: BusView| #![trigger load_hl_sp_offset(c, b)] well_timed(c, load_hl_sp_offset(c, b)),
        forall|c: CpuView, b: BusView| #![trigger add_sp_offset(c, b)] well_timed(c, add_sp_offset(c, b)),
        forall|c: CpuView, b: BusView, op: int| #![trigger alu_hl(c, b, op)] well_timed(c, alu_hl(c, b, op)),
        forall|c: CpuView, b: BusView, op: int| #![trigger alu_imm(c, b, op)] well_timed(c, alu_imm(c, b, op)),
        forall|c: CpuView, b: BusView| #![trigger inc_hl(c, b)] well_timed(c, inc_hl(c, b)),
        forall|c: CpuView, b: BusView| #![trigger dec_hl(c, b)] well_timed(c, dec_hl(c, b)),
        forall|c: CpuView, b: BusView, p: int| #![trigger pop_pair(c, b, p)] well_timed(c, pop_pair(c, b, p)),
        forall|c: CpuView, b: BusView| #![trigger pop_af(c, b)] well_timed(c, pop_af(c, b)),
        forall|c: CpuView, b: BusView, p: int| #![trigger push_pair(c, b, p)] well_timed(c, push_pair(c, b, p)),
        forall|c: CpuView, b: BusView| #![trigger push_af(c, b)] well_timed(c, push_af(c, b)),
        forall|c: CpuView, b: BusView| #![trigger jump_abs(c, b)] well_timed(c, jump_abs(c, b)),
        forall|c: CpuView, b: BusView, cc: int| #![trigger jump_abs_if(c, b, cc)] well_timed(c, jump_abs_if(c, b, cc)),
        forall|c: CpuView, b: BusView| #![trigger jump_rel(c, b)] well_timed(c, jump_rel(c, b)),
        forall|c: CpuView, b: BusView, cc: int| #![trigger jump_rel_if(c, b, cc)] well_timed(c, jump_rel_if(c, b, cc)),
        forall|c: CpuView, b: BusView| #![trigger call(c, b)] well_timed(c, call(c, b)),
        forall|c: CpuView, b: BusView, cc: int| #![trigger call_if(c, b, cc)] well_timed(c, call_if(c, b, cc)),
        forall|c: CpuView, b: BusView, cc: int| #![trigger ret_if(c, b, cc)] well_timed(c, ret_if(c, b, cc)),
        forall|c: CpuView, b: BusView| #![trigger reti(c, b)] well_timed(c, reti(c, b)),
        forall|c: CpuView, b: BusView, op: int| #![trigger shift_hl(c, b, op)] well_timed(c, shift_hl(c, b, op)),
        forall|c: CpuView, b: BusView, n: int| #![trigger bit_hl(c, b, n)] well_timed(c, bit_hl(c, b, n)),
        forall|c: CpuView, b: BusView, n: int| #![trigger res_hl(c, b, n)] well_timed(c, res_hl(c, b, n)),
        forall|c: CpuView, b: BusView, n: int| #![trigger set_hl(c, b, n)] well_timed(c, set_hl(c, b, n)),
        forall|op: u8, c: CpuView, b: BusView| #![trigger exec_prefixed(op, c, b)] well_timed(c, exec_prefixed(op, c, b)),
        forall|c: CpuView, b: BusView| #![trigger prefixed(c, b)] well_timed(c, prefixed(c, b)),
{
    lemma_timed_leaves();
    lemma_transforms_keep();
    reveal(load_imm);
    reveal(load_imm16);
    reveal(store_imm_hl);
    reveal(store_a_hl_step);
    reveal(load_a_hl_step);
    reveal(store_a_abs);
    reveal(load_a_abs);
    reveal(store_a_high);
    reveal(load_a_high);
    reveal(store_sp_abs);
    reveal(load_hl_sp_offset);
    reveal(add_sp_offset);
    reveal(alu_hl);
    reveal(alu_imm);
    reveal(inc_hl);
    reveal(dec_hl);
    reveal(pop_pair);
    reveal(pop_af);
    reveal(push_pair);
    reveal(push_af);
    reveal(jump_abs);
    reveal(jump_abs_if);
    reveal(jump_rel);
    reveal(jump_rel_if);
    reveal(call);
    reveal(call_if);
    reveal(ret_if);
    reveal(reti);
    reveal(shift_hl);
    reveal(bit_hl);
    reveal(res_hl);
    reveal(set_hl);
    reveal(exec_prefixed);
    reveal(prefixed);
}

proof fn lemma_exec_timed(op: u8, c: CpuView, b: BusView)
    ensures
        well_timed(c, exec(op, c, b)),
{
    lemma_timed_families();
    lemma_timed_leaves();
    lemma_transforms_keep();
    reveal(exec_block0);
    reveal(exec_block1);
    reveal(exec_block2);
    reveal(exec_block3);
}

/// A step takes at most 24 cycles, adds exactly them to the cycle counter,
/// and never changes the low nibble of F.
pub proof fn lemma_step_accounting(c: CpuView, b: BusView)
    ensures
        step(c, b) matches Some((c2, b2, t)) ==> t <= 24 && c2.t_states == c.t_states + t
            && c2.f_low == c.f_low,
{
    if let Some((c1, b1, op)) = fetch8(c, b) {
        lemma_exec_timed(op, c1, b1);
    }
}

/// Both nibbles of a byte are decimal digits.
pub open spec fn is_bcd(v: u8) -> bool {
    v % 16 <= 9 && v / 16 <= 9
}

/// The number 0..=99 that a BCD byte stands for.
pub open spec fn bcd_value(v: u8) -> int {
    (v / 16) * 10 + v % 16
}

/// The BCD byte of a number 0..=99.
pub open spec fn to_bcd(n: int) -> u8 {
    ((n / 10) * 16 + n % 10) as u8
}

#[verifier::spinoff_prover]
#[verifier::rlimit(100)]
proof fn lemma_daa_add_digits(x1: int, x0: int, y1: int, y0: int)
    requires
        0 <= x1 <= 9,
        0 <= x0 <= 9,
        0 <= y1 <= 9,
        0 <= y0 <= 9,
    ensures
        ({
            let x = x1 * 16 + x0;
            let y = y1 * 16 + y0;
            let a = (x + y) % 256;
            let low = (x0 + y0 > 15) || a % 16 > 9;
            let high = (x + y > 255) || a > 0x99;
            let r = (a + (if low { 6int } else { 0int }) + (if high { 0x60int } else { 0int })) % 256;
            let n = x1 * 10 + x0 + y1 * 10 + y0;
            &&& r == ((n % 100) / 10) * 16 + (n % 100) % 10
            &&& high == (n >= 100)
        }),
{
    let x = x1 * 16 + x0;
    let y = y1 * 16 + y0;
    let s0 = x0 + y0;
    let s1 = x1 + y1;
    let big = s1 * 16 + s0;
    let c0 = s0 >= 10;
    let t1 = if c0 {
        s1 + 1
    } else {
        s1
    };
    let c1 = t1 >= 10;
    let d0 = if c0 {
        s0 - 10
    } else {
        s0
    };
    let d1 = if c1 {
        t1 - 10
    } else {
        t1
    };
    let a = (x + y) % 256;
    assert(x + y == big);
    if big <= 255 {
        assert(a == big);
    } else {
        assert(a == big - 256);
    }
    if s0 < 16 {
        assert(a % 16 == s0);
    } else {
        assert(a % 16 == s0 - 16);
    }
    let low = (x0 + y0 > 15) || a % 16 > 9;
    let high = (x + y > 255) || a > 0x99;
    assert(low == c0);
    assert(high == c1);
    let n = x1 * 10 + x0 + y1 * 10 + y0;
    if c1 {
        assert(n == 100 + 10 * d1 + d0);
    } else {
        assert(n == 10 * d1 + d0);
    }
    assert(n % 100 == 10 * d1 + d0);
    assert((n % 100) / 10 == d1);
    assert((n % 100) % 10 == d0);
    let sum = a + (if low { 6int } else { 0int }) + (if high { 0x60int } else { 0int });
    if big > 255 {
        assert(sum == 16 * d1 + d0);
    } else if c1 {
        assert(sum == 16 * d1 + d0 + 256);
    } else {
        assert(sum == 16 * d1 + d0);
    }
}

#[verifier::spinoff_prover]
#[verifier::rlimit(100)]
proof fn lemma_daa_sub_digits(x1: int, x0: int, y1: int, y0: int)
    requires
        0 <= x1 <= 9,
        0 <= x0 <= 9,
        0 <= y1 <= 9,
        0 <= y0 <= 9,
    ensures
        ({
            let x = x1 * 16 + x0;
            let y = y1 * 16 + y0;
            let a = (x - y) % 256;
            let r = (a - (if x0 < y0 { 6int } else { 0int }) - (if x < y { 0x60int } else { 0int })) % 256;
            let d = (x1 * 10 + x0 - y1 * 10 - y0) % 100;
            &&& r == (d / 10) * 16 + d % 10
            &&& (x < y) == (x1 * 10 + x0 < y1 * 10 + y0)
        }),
{
    let x = x1 * 16 + x0;
    let y = y1 * 16 + y0;
    let b0 = x0 < y0;
    let d0 = if b0 {
        x0 - y0 + 10
    } else {
        x0 - y0
    };
    let t1 = if b0 {
        x1 - y1 - 1
    } else {
        x1 - y1
    };
    let b1 = t1 < 0;
    let d1 = if b1 {
        t1 + 10
    } else {
        t1
    };
    assert(b1 == (x < y));
    assert(b1 == (x1 * 10 + x0 < y1 * 10 + y0));
    let a = (x - y) % 256;
    if b1 {
        assert(a == x - y + 256);
    } else {
        assert(a == x - y);
    }
    let diff = x1 * 10 + x0 - y1 * 10 - y0;
    if b1 {
        assert(diff == 10 * d1 + d0 - 100);
    } else {
        assert(diff == 10 * d1 + d0);
    }
    assert(diff % 100 == 10 * d1 + d0);
    assert((diff % 100) / 10 == d1);
    assert((diff % 100) % 10 == d0);
    let rest = a - (if x0 < y0 { 6int } else { 0int }) - (if x < y { 0x60int } else { 0int });
    assert(rest == 16 * d1 + d0);
}

/// After a binary addition of two BCD bytes with its true half-carry and
/// carry, DAA gives the BCD sum modulo 100 and sets C when the sum reaches
/// 100.
pub proof fn lemma_daa_add(c: CpuView, x: u8, y: u8)
    requires
        is_bcd(x),
        is_bcd(y),
        c.a == (x + y) % 256,
        !c.nf,
        c.hf == (x % 16 + y % 16 > 15),
        c.cf == (x + y > 255),
    ensures
        daa(c).a == to_bcd((bcd_value(x) + bcd_value(y)) % 100),
        daa(c).cf == (bcd_value(x) + bcd_value(y) >= 100),
{
    reveal(daa);
    lemma_daa_add_digits((x / 16) as int, (x % 16) as int, (y / 16) as int, (y % 16) as int);
}

/// After a binary subtraction of two BCD bytes with its true half-borrow and
/// borrow, DAA gives the BCD difference modulo 100; C keeps the borrow.
pub proof fn lemma_daa_sub(c: CpuView, x: u8, y: u8)
    requires
        is_bcd(x),
        is_bcd(y),
        c.a == wrap8(x - y),
        c.nf,
        c.hf == (x % 16 < y % 16),
        c.cf == (x < y),
    ensures
        daa(c).a == to_bcd((bcd_value(x) - bcd_value(y)) % 100),
        daa(c).cf == (bcd_value(x) < bcd_value(y)),
{
    reveal(daa);
    lemma_daa_sub_digits((x / 16) as int, (x % 16) as int, (y / 16) as int, (y % 16) as int);
}

/// `c2` differs from `c` at most in A and the four flags.
pub open spec fn only_a_and_flags(c: CpuView, c2: CpuView) -> bool {
    c2 == (CpuView { a: c2.a, zf: c2.zf, nf: c2.nf, hf: c2.hf, cf: c2.cf, ..c })
}

/// ADD, ADC, SUB and SBC: A becomes the sum (with the carry for ADC) or
/// the difference (with the borrow for SBC) modulo 256; C tells whether the
/// sum passed 255 or the difference went below 0; Z whether A is 0; N is set
/// for the subtractions; H is set when the low nibbles of the new A and of
/// the operand sum past 15 (additions) or the new A's low nibble is below
/// the operand's (subtractions). Only A and the flags change.
pub proof fn lemma_alu_arithmetic(c: CpuView, v: u8)
    ensures
        ({
            let cy: int = if c.cf {
                1
            } else {
                0
            };
            let add = alu(c, 0, v);
            let adc = alu(c, 1, v);
            let sub = alu(c, 2, v);
            let sbc = alu(c, 3, v);
            &&& add.a == (c.a + v) % 256 && add.cf == (c.a + v > 255) && add.zf == (add.a == 0)
                && !add.nf && add.hf == (add.a % 16 + v % 16 > 15) && only_a_and_flags(c, add)
            &&& adc.a == (c.a + v + cy) % 256 && adc.cf == (c.a + v + cy > 255) && adc.zf == (adc.a
                == 0) && !adc.nf && adc.hf == (adc.a % 16 + v % 16 > 15) && only_a_and_flags(c, adc)
            &&& sub.a == (c.a - v) % 256 && sub.cf == (c.a < v) && sub.zf == (sub.a == 0) && sub.nf
                && sub.hf == (sub.a % 16 < v % 16) && only_a_and_flags(c, sub)
            &&& sbc.a == (c.a - v - cy) % 256 && sbc.cf == (c.a < v + cy) && sbc.zf == (sbc.a == 0)
                && sbc.nf && sbc.hf == (sbc.a % 16 < v % 16) && only_a_and_flags(c, sbc)
        }),
{
    reveal(alu);
}

/// AND, XOR, OR and CP: the bitwise operations set A, Z from it, H only for
/// AND, and clear N and C; CP leaves A, sets Z when A equals the operand, N,
/// and C when the operand is above A. Only A and the flags change.
pub proof fn lemma_alu_logic(c: CpuView, v: u8)
    ensures
        ({
            let and = alu(c, 4, v);
            let xor = alu(c, 5, v);
            let or = alu(c, 6, v);
            let cp = alu(c, 7, v);
            &&& and.a == c.a & v && and.zf == (and.a == 0) && !and.nf && and.hf && !and.cf
                && only_a_and_flags(c, and)
            &&& xor.a == c.a ^ v && xor.zf == (xor.a == 0) && !xor.nf && !xor.hf && !xor.cf
                && only_a_and_flags(c, xor)
            &&& or.a == c.a | v && or.zf == (or.a == 0) && !or.nf && !or.hf && !or.cf
                && only_a_and_flags(c, or)
            &&& cp.a == c.a && cp.zf == (c.a == v) && cp.nf && cp.cf == (c.a < v) && cp.hf == (c.a
                % 16 < v % 16) && only_a_and_flags(c, cp)
        }),
{
    reveal(alu);
    let a = c.a;
    assert(v ^ a == a ^ v && v | a == a | v) by (bit_vector);
}

/// The results of the rotates and shifts (0 RLC, 1 RRC, 2 RL, 3 RR, 4 SLA,
/// 5 SRA, 6 SWAP, 7 SRL) as where each bit of `v` goes: left moves put
/// bit 7 into C, right moves bit 0; RLC and RRC bring the bit that leaves
/// round, RL and RR bring in C, SLA and SRL bring in 0, SRA keeps bit 7,
/// SWAP exchanges the nibbles and clears C.
pub proof fn lemma_shift_bits(c: CpuView, v: u8)
    ensures
        ({
            let cy: int = if c.cf {
                1
            } else {
                0
            };
            let rlc = shift_result(c, 0, v);
            let rrc = shift_result(c, 1, v);
            let rl = shift_result(c, 2, v);
            let rr = shift_result(c, 3, v);
            let sla = shift_result(c, 4, v);
            let sra = shift_result(c, 5, v);
            let swap = shift_result(c, 6, v);
            let srl = shift_result(c, 7, v);
            &&& rlc.0 / 2 == v % 128 && rlc.0 % 2 == v / 128 && rlc.1 == (v >= 128)
            &&& rrc.0 % 128 == v / 2 && rrc.0 / 128 == v % 2 && rrc.1 == (v % 2 == 1)
            &&& rl.0 / 2 == v % 128 && rl.0 % 2 == cy && rl.1 == (v >= 128)
            &&& rr.0 % 128 == v / 2 && rr.0 / 128 == cy && rr.1 == (v % 2 == 1)
            &&& sla.0 / 2 == v % 128 && sla.0 % 2 == 0 && sla.1 == (v >= 128)
            &&& sra.0 % 128 == v / 2 && sra.0 / 128 == v / 128 && sra.1 == (v % 2 == 1)
            &&& swap.0 / 16 == v % 16 && swap.0 % 16 == v / 16 && !swap.1
            &&& srl.0 % 128 == v / 2 && srl.0 / 128 == 0 && srl.1 == (v % 2 == 1)
        }),
{
    if v < 128 {
        assert((v * 2) % 256 == v * 2);
    } else {
        assert((v * 2) % 256 == v * 2 - 256);
    }
}

/// A prefixed rotate or shift of a register: the register takes the
/// result, C the bit that left, Z whether the result is 0; N and H are
/// cleared, and nothing else changes.
pub proof fn lemma_shift_reg_effect(c: CpuView, op: int, r: int)
    requires
        0 <= r <= 7,
        r != 6,
    ensures
        ({
            let v = c.reg8(r);
            let (res, carry) = shift_result(c, op, v);
            shift_reg(c, op, r) == c.with_flags(res == 0, false, false, carry).with_reg8(r, res)
                && shift_reg(c, op, r).reg8(r) == res
        }),
{
    reveal(shift_reg);
    let v = c.reg8(r);
    lemma_reg8_write_read(shift(c, op, v).0, r, shift(c, op, v).1);
}

/// The byte at `addr` reads as `v` and the read changes nothing.
pub open spec fn byte_at(b: BusView, addr: int, v: u8) -> bool {
    0 <= addr <= 0xFFFF && b.read(addr as u16) == Some((b, v))
}

/// A step of an ALU instruction with an immediate operand (opcodes 0xC6,
/// 0xCE, .. 0xFE for operations 0..=7): the operation on A and the byte
/// after the opcode, PC moved past both, 8 cycles.
pub proof fn lemma_step_alu_imm(c: CpuView, b: BusView, op: int, v: u8)
    requires
        0 <= op < 8,
        byte_at(b, c.pc as int, (0xC6 + 8 * op) as u8),
        byte_at(b, c.pc + 1, v),
        c.pc + 2 <= 0xFFFF,
        c.t_states + 8 <= u32::MAX,
    ensures
        step(c, b) == Some(
            (
                CpuView {
                    t_states: (c.t_states + 8) as u32,
                    ..alu(c.with_pc((c.pc + 2) as u16), op, v)
                },
                b,
                8u32,
            ),
        ),
{
    reveal(exec_block3);
    reveal(alu_imm);
    lemma_transforms_keep();
    let code = (0xC6 + 8 * op) as u8;
    let c1 = c.with_pc((c.pc + 1) as u16);
    assert(fetch8(c, b) == Some((c1, b, code)));
    assert(code >= 0xC0 && (code / 8) % 8 == op && code % 8 == 6);
    assert(exec(code, c1, b) == alu_imm(c1, b, op));
    assert(fetch8(c1, b) == Some((c.with_pc((c.pc + 2) as u16), b, v)));
    assert(alu_imm(c1, b, op) == Some((alu(c.with_pc((c.pc + 2) as u16), op, v), b, 8u32)));
}

/// A step of an ALU instruction with a register operand (opcodes 0x80 to
/// 0xBF but those ending in 6 or E): the operation on A and the register,
/// PC moved past the opcode, 4 cycles.
pub proof fn lemma_step_alu_reg(c: CpuView, b: BusView, op: int, r: int)
    requires
        0 <= op < 8,
        0 <= r <= 7,
        r != 6,
        byte_at(b, c.pc as int, (0x80 + 8 * op + r) as u8),
        c.pc < 0xFFFF,
        c.t_states + 4 <= u32::MAX,
    ensures
        step(c, b) == Some(
            (
                CpuView {
                    t_states: (c.t_states + 4) as u32,
                    ..alu(c.with_pc((c.pc + 1) as u16), op, c.reg8(r))
                },
                b,
                4u32,
            ),
        ),
{
    reveal(exec_block2);
    lemma_transforms_keep();
    let code = (0x80 + 8 * op + r) as u8;
    let c1 = c.with_pc((c.pc + 1) as u16);
    assert(fetch8(c, b) == Some((c1, b, code)));
    assert(0x80 <= code < 0xC0 && (code / 8) % 8 == op && code % 8 == r);
    assert(c1.reg8(r) == c.reg8(r));
    assert(exec(code, c1, b) == reg_only(alu(c1, op, c.reg8(r)), b, 4));
}

/// A step of a prefixed rotate or shift of a register (0xCB, then an
/// opcode below 0x40 not ending in 6 or E): the operation on the register,
/// PC moved past both bytes, 8 cycles.
pub proof fn lemma_step_shift_reg(c: CpuView, b: BusView, op: int, r: int)
    requires
        0 <= op < 8,
        0 <= r <= 7,
        r != 6,
        byte_at(b, c.pc as int, 0xCB),
        byte_at(b, c.pc + 1, (8 * op + r) as u8),
        c.pc + 2 <= 0xFFFF,
        c.t_states + 8 <= u32::MAX,
    ensures
        step(c, b) == Some(
            (
                CpuView {
                    t_states: (c.t_states + 8) as u32,
                    ..shift_reg(c.with_pc((c.pc + 2) as u16), op, r)
                },
                b,
                8u32,
            ),
        ),
{
    reveal(exec_block3);
    reveal(prefixed);
    reveal(exec_prefixed);
    lemma_transforms_keep();
    let code = (8 * op + r) as u8;
    let c1 = c.with_pc((c.pc + 1) as u16);
    let c2 = c.with_pc((c.pc + 2) as u16);
    assert(fetch8(c, b) == Some((c1, b, 0xCBu8)));
    assert(exec(0xCB, c1, b) == prefixed(c1, b));
    assert(fetch8(c1, b) == Some((c2, b, code)));
    assert(code / 64 == 0 && (code / 8) % 8 == op && code % 8 == r);
    assert(exec_prefixed(code, c2, b) == reg_only(shift_reg(c2, op, r), b, 8));
}

/// CALL cc, a16 (opcodes 0xC4, 0xCC, 0xD4, 0xDC for NZ, Z, NC, C): with
/// the condition false only PC moves, past the operand, in 12 cycles; with
/// it true the address past the operand is pushed (high byte first), SP
/// goes down by 2 and PC takes the operand, in 24 cycles.
pub proof fn lemma_step_call_cc(c: CpuView, b: BusView, cc: int, l: u8, h: u8)
    requires
        0 <= cc < 4,
        byte_at(b, c.pc as int, (0xC4 + 8 * cc) as u8),
        byte_at(b, c.pc + 1, l),
        byte_at(b, c.pc + 2, h),
        c.pc + 3 <= 0xFFFF,
        c.t_states + 24 <= u32::MAX,
        b.sized(),
        stack_in_memory(c),
    ensures
        ({
            let taken = condition_met(c.zf, c.cf, cc);
            let ret = (c.pc + 3) as u16;
            &&& !taken ==> step(c, b) == Some(
                (CpuView { pc: ret, t_states: (c.t_states + 12) as u32, ..c }, b, 12u32),
            )
            &&& taken ==> (step(c, b) matches Some((c2, b2, t)) && t == 24 && c2 == (CpuView {
                pc: (h * 256 + l) as u16,
                sp: (c.sp - 2) as u16,
                t_states: (c.t_states + 24) as u32,
                ..c
            }) && b2.peek((c.sp - 1) as u16) == ret / 256 && b2.peek((c.sp - 2) as u16) == ret
                % 256)
        }),
{
    reveal(exec_block3);
    let code = (0xC4 + 8 * cc) as u8;
    let c1 = c.with_pc((c.pc + 1) as u16);
    let c3 = c.with_pc((c.pc + 3) as u16);
    let ret = (c.pc + 3) as u16;
    assert(fetch8(c, b) == Some((c1, b, code)));
    assert(code >= 0xC0 && (code / 8) % 8 == cc && code % 8 == 4);
    assert(exec(code, c1, b) == call_if(c1, b, cc));
    assert(fetch16(c1, b) == Some((c3, b, word(h, l))));
    assert(c1.cond(cc) == ((cc == 0 && !c.zf) || (cc == 1 && c.zf) || (cc == 2 && !c.cf) || (cc
        == 3 && c.cf)));
    lemma_call_if_cases(c1, b, cc, c3, word(h, l));
    assert(word(h, l) == (h * 256 + l) as u16);
    lemma_memory_write_read(b, (c.sp - 1) as u16, hi(ret));
    let b1 = b.write((c.sp - 1) as u16, hi(ret)).unwrap();
    lemma_memory_write_read(b1, (c.sp - 2) as u16, lo(ret));
    lemma_memory_write_other(b1, (c.sp - 2) as u16, (c.sp - 1) as u16, lo(ret));
}

proof fn lemma_call_if_cases(c: CpuView, b: BusView, cc: int, c3: CpuView, addr: u16)
    requires
        fetch16(c, b) == Some((c3, b, addr)),
    ensures
        !c.cond(cc) ==> call_if(c, b, cc) == Some((c3, b, 12u32)),
        c.cond(cc) ==> call_if(c, b, cc) == call_to(c3, b, addr, 24),
        call_to(c3, b, addr, 24) == (match push16(c3, b, c3.pc) {
            Some((c4, b4)) => Some((c4.with_pc(addr), b4, 24u32)),
            None => None,
        }),
{
    reveal(call_if);
    reveal(call_to);
}

/// Condition `cc` (0 NZ, 1 Z, 2 NC, 3 C) over the Z and C flags.
pub open spec fn condition_met(zf: bool, cf: bool, cc: int) -> bool {
    (cc == 0 && !zf) || (cc == 1 && zf) || (cc == 2 && !cf) || (cc == 3 && cf)
}

/// A step of an ALU instruction with the byte at HL (opcodes 0x86, 0x8E,
/// .. 0xBE): the operation on A and that byte, PC past the opcode, 8
/// cycles.
pub proof fn lemma_step_alu_hl(c: CpuView, b: BusView, op: int, v: u8)
    requires
        0 <= op < 8,
        byte_at(b, c.pc as int, (0x86 + 8 * op) as u8),
        byte_at(b, c.hl as int, v),
        c.pc < 0xFFFF,
        c.t_states + 8 <= u32::MAX,
    ensures
        step(c, b) == Some(
            (
                CpuView {
                    t_states: (c.t_states + 8) as u32,
                    ..alu(c.with_pc((c.pc + 1) as u16), op, v)
                },
                b,
                8u32,
            ),
        ),
{
    reveal(exec_block2);
    reveal(alu_hl);
    lemma_transforms_keep();
    let code = (0x86 + 8 * op) as u8;
    let c1 = c.with_pc((c.pc + 1) as u16);
    assert(fetch8(c, b) == Some((c1, b, code)));
    assert(0x80 <= code < 0xC0 && (code / 8) % 8 == op && code % 8 == 6);
    assert(exec(code, c1, b) == alu_hl(c1, b, op));
}

/// A prefixed rotate or shift of the byte at HL (0xCB, then 0x06, 0x0E,
/// .. 0x3E): the byte becomes the operation's result, C the bit that left,
/// Z whether the result is 0, N and H cleared; PC past both bytes; 8 cycles
/// for SRA and 16 for the others.
pub proof fn lemma_step_shift_hl(c: CpuView, b: BusView, op: int, v: u8)
    requires
        0 <= op < 8,
        b.sized(),
        is_memory(c.hl),
        byte_at(b, c.pc as int, 0xCB),
        byte_at(b, c.pc + 1, (8 * op + 6) as u8),
        byte_at(b, c.hl as int, v),
        c.pc + 2 <= 0xFFFF,
        c.t_states + 16 <= u32::MAX,
    ensures
        ({
            let (res, carry) = shift_result(c, op, v);
            let t: u32 = if op == 5 {
                8
            } else {
                16
            };
            step(c, b) matches Some((c2, b2, t2)) && t2 == t && c2 == (CpuView {
                pc: (c.pc + 2) as u16,
                t_states: (c.t_states + t) as u32,
                ..c.with_flags(res == 0, false, false, carry)
            }) && b2.peek(c.hl) == res
        }),
{
    reveal(exec_block3);
    reveal(prefixed);
    reveal(exec_prefixed);
    reveal(shift_hl);
    reveal(store);
    let code = (8 * op + 6) as u8;
    let c1 = c.with_pc((c.pc + 1) as u16);
    let c2 = c.with_pc((c.pc + 2) as u16);
    assert(fetch8(c, b) == Some((c1, b, 0xCBu8)));
    assert(exec(0xCB, c1, b) == prefixed(c1, b));
    assert(fetch8(c1, b) == Some((c2, b, code)));
    assert(code / 64 == 0 && (code / 8) % 8 == op && code % 8 == 6);
    assert(exec_prefixed(code, c2, b) == shift_hl(c2, b, op));
    lemma_memory_write_read(b, c.hl, shift(c2, op, v).1);
}

/// JR cc, e8 (opcodes 0x20, 0x28, 0x30, 0x38 for NZ, Z, NC, C): with the
/// condition true PC moves by the signed offset from past the operand, in
/// 12 cycles; with it false only past the operand, in 8.
pub proof fn lemma_step_jr_cc(c: CpuView, b: BusView, cc: int, e: u8)
    requires
        0 <= cc < 4,
        byte_at(b, c.pc as int, (0x20 + 8 * cc) as u8),
        byte_at(b, c.pc + 1, e),
        c.pc + 2 <= 0xFFFF,
        c.t_states + 12 <= u32::MAX,
    ensures
        ({
            let offset: int = if e < 128 {
                e as int
            } else {
                e - 256
            };
            if condition_met(c.zf, c.cf, cc) {
                step(c, b) == Some(
                    (
                        CpuView {
                            pc: ((c.pc + 2 + offset) % 65536) as u16,
                            t_states: (c.t_states + 12) as u32,
                            ..c
                        },
                        b,
                        12u32,
                    ),
                )
            } else {
                step(c, b) == Some(
                    (
                        CpuView {
                            pc: (c.pc + 2) as u16,
                            t_states: (c.t_states + 8) as u32,
                            ..c
                        },
                        b,
                        8u32,
                    ),
                )
            }
        }),
{
    reveal(exec_block0);
    reveal(jump_rel_if);
    let code = (0x20 + 8 * cc) as u8;
    let c1 = c.with_pc((c.pc + 1) as u16);
    assert(fetch8(c, b) == Some((c1, b, code)));
    assert(code < 0x40 && (code / 8) % 8 == cc + 4 && code % 8 == 0);
    assert(exec(code, c1, b) == jump_rel_if(c1, b, cc));
}

/// JP cc, a16 (opcodes 0xC2, 0xCA, 0xD2, 0xDA): with the condition true PC
/// takes the operand, in 16 cycles; with it false it moves past the
/// operand, in 12.
pub proof fn lemma_step_jp_cc(c: CpuView, b: BusView, cc: int, l: u8, h: u8)
    requires
        0 <= cc < 4,
        byte_at(b, c.pc as int, (0xC2 + 8 * cc) as u8),
        byte_at(b, c.pc + 1, l),
        byte_at(b, c.pc + 2, h),
        c.pc + 3 <= 0xFFFF,
        c.t_states + 16 <= u32::MAX,
    ensures
        if condition_met(c.zf, c.cf, cc) {
            step(c, b) == Some(
                (
                    CpuView { pc: (h * 256 + l) as u16, t_states: (c.t_states + 16) as u32, ..c },
                    b,
                    16u32,
                ),
            )
        } else {
            step(c, b) == Some(
                (
                    CpuView { pc: (c.pc + 3) as u16, t_states: (c.t_states + 12) as u32, ..c },
                    b,
                    12u32,
                ),
            )
        },
{
    reveal(exec_block3);
    reveal(jump_abs_if);
    let code = (0xC2 + 8 * cc) as u8;
    let c1 = c.with_pc((c.pc + 1) as u16);
    assert(fetch8(c, b) == Some((c1, b, code)));
    assert(code >= 0xC0 && (code / 8) % 8 == cc && code % 8 == 2);
    assert(exec(code, c1, b) == jump_abs_if(c1, b, cc));
    assert(fetch16(c1, b) == Some((c.with_pc((c.pc + 3) as u16), b, word(h, l))));
}

/// RET cc (opcodes 0xC0, 0xC8, 0xD0, 0xD8): with the condition true PC
/// takes the word at SP (low byte first) and SP moves up by 2, in 20
/// cycles; with it false only PC moves past the opcode, in 8.
pub proof fn lemma_step_ret_cc(c: CpuView, b: BusView, cc: int, l: u8, h: u8)
    requires
        0 <= cc < 4,
        byte_at(b, c.pc as int, (0xC0 + 8 * cc) as u8),
        byte_at(b, c.sp as int, l),
        byte_at(b, c.sp + 1, h),
        c.pc < 0xFFFF,
        c.sp + 2 <= 0xFFFF,
        c.t_states + 20 <= u32::MAX,
    ensures
        if condition_met(c.zf, c.cf, cc) {
            step(c, b) == Some(
                (
                    CpuView {
                        pc: (h * 256 + l) as u16,
                        sp: (c.sp + 2) as u16,
                        t_states: (c.t_states + 20) as u32,
                        ..c
                    },
                    b,
                    20u32,
                ),
            )
        } else {
            step(c, b) == Some(
                (
                    CpuView { pc: (c.pc + 1) as u16, t_states: (c.t_states + 8) as u32, ..c },
                    b,
                    8u32,
                ),
            )
        },
{
    reveal(exec_block3);
    reveal(ret_if);
    reveal(ret_with);
    let code = (0xC0 + 8 * cc) as u8;
    let c1 = c.with_pc((c.pc + 1) as u16);
    assert(fetch8(c, b) == Some((c1, b, code)));
    assert(code >= 0xC0 && (code / 8) % 8 == cc && code % 8 == 0);
    assert(exec(code, c1, b) == ret_if(c1, b, cc));
}

/// The eight-bit registers (0 B, 1 C, 2 D, 3 E, 4 H, 5 L, 7 A) are the
/// halves of BC, DE and HL (high byte first) and A: writing one gives it
/// back and leaves the others, SP, PC, the flags and the counters alone.
pub proof fn lemma_reg8_update(c: CpuView, r: int, q: int, v: u8)
    requires
        0 <= r <= 7,
        r != 6,
        0 <= q <= 7,
        q != 6,
    ensures
        c.with_reg8(r, v).reg8(r) == v,
        q != r ==> c.with_reg8(r, v).reg8(q) == c.reg8(q),
        c.reg8(0) == c.bc / 256 && c.reg8(1) == c.bc % 256,
        c.reg8(2) == c.de / 256 && c.reg8(3) == c.de % 256,
        c.reg8(4) == c.hl / 256 && c.reg8(5) == c.hl % 256,
        c.reg8(7) == c.a,
        c.with_reg8(r, v) == (CpuView {
            a: c.with_reg8(r, v).a,
            bc: c.with_reg8(r, v).bc,
            de: c.with_reg8(r, v).de,
            hl: c.with_reg8(r, v).hl,
            ..c
        }),
{
}

/// INC and DEC of a register: the register moves by one modulo 256, Z
/// tells whether it became 0, N is cleared by INC and set by DEC, H is set
/// when the low nibble carries (INC from 15) or borrows (DEC from 0), C
/// and everything else stay.
pub proof fn lemma_inc_dec_reg(c: CpuView, r: int)
    requires
        0 <= r <= 7,
        r != 6,
    ensures
        ({
            let v = c.reg8(r);
            let up = ((v + 1) % 256) as u8;
            let down = ((v + 255) % 256) as u8;
            &&& inc_reg(c, r) == c.with_flags(up == 0, false, v % 16 == 15, c.cf).with_reg8(r, up)
            &&& dec_reg(c, r) == c.with_flags(down == 0, true, v % 16 == 0, c.cf).with_reg8(r, down)
        }),
{
    reveal(inc_reg);
    reveal(dec_reg);
}

/// CPL complements A and sets N and H; SCF sets C and CCF complements it,
/// both clearing N and H. Nothing else changes.
pub proof fn lemma_cpl_scf_ccf(c: CpuView)
    ensures
        cpl(c) == (CpuView { a: (255 - c.a) as u8, nf: true, hf: true, ..c }),
        scf(c) == (CpuView { cf: true, nf: false, hf: false, ..c }),
        ccf(c) == (CpuView { cf: !c.cf, nf: false, hf: false, ..c }),
{
    reveal(cpl);
    reveal(scf);
    reveal(ccf);
}

/// ADD HL, rr: HL becomes the sum modulo 65536, C tells whether it passed
/// 65535, N is cleared, H is set when the low twelve bits of the new HL and
/// of the operand sum past 0xFFF; Z and everything else stay.
pub proof fn lemma_add_hl_arith(c: CpuView, w: u16)
    ensures
        add_hl(c, w) == (CpuView {
            hl: ((c.hl + w) % 65536) as u16,
            nf: false,
            hf: ((c.hl + w) % 65536) % 4096 + w % 4096 > 4095,
            cf: c.hl + w > 65535,
            ..c
        }),
{
    reveal(add_hl);
}

/// After SET n a byte has bit n set, after RES n clear; every other bit is
/// as it was.
pub proof fn lemma_set_res_bits(v: u8, n: int, j: int)
    requires
        0 <= n < 8,
        0 <= j < 8,
        j != n,
    ensures
        bit_set(set_bit(v, n), n),
        !bit_set(res_bit(v, n), n),
        bit_set(set_bit(v, n), j) == bit_set(v, j),
        bit_set(res_bit(v, n), j) == bit_set(v, j),
{
    reveal(set_bit);
    reveal(res_bit);
    let k = n as u8;
    let m = j as u8;
    assert(((v | (1u8 << k)) >> k) & 1 == 1 && ((v & !(1u8 << k)) >> k) & 1 == 0 && (((v | (1u8
        << k)) >> m) & 1 == (v >> m) & 1) && (((v & !(1u8 << k)) >> m) & 1 == (v >> m) & 1))
        by (bit_vector)
        requires
            k < 8,
            m < 8,
            k != m,
    ;
}

/// A step of INC r (0x04 + 8r): INC of the register, PC past the opcode, 4
/// cycles.
pub proof fn lemma_step_inc_reg(c: CpuView, b: BusView, r: int)
    requires
        0 <= r <= 7,
        r != 6,
        byte_at(b, c.pc as int, (0x04 + 8 * r) as u8),
        c.pc < 0xFFFF,
        c.t_states + 8 <= u32::MAX,
    ensures
        step(c, b) == Some(
            (CpuView { t_states: (c.t_states + 4) as u32, ..inc_reg(c.with_pc((c.pc + 1) as u16), r) }, b, 4u32),
        ),
{
    reveal(exec_block0);
    lemma_transforms_keep();
    let code = (0x04 + 8 * r) as u8;
    let c1 = c.with_pc((c.pc + 1) as u16);
    assert(fetch8(c, b) == Some((c1, b, code)));
    assert(code < 0x40 && (code / 8) % 8 == r && code % 8 == 4);
}

/// A step of DEC r (0x05 + 8r): DEC of the register, PC past the opcode, 4
/// cycles.
pub proof fn lemma_step_dec_reg(c: CpuView, b: BusView, r: int)
    requires
        0 <= r <= 7,
        r != 6,
        byte_at(b, c.pc as int, (0x05 + 8 * r) as u8),
        c.pc < 0xFFFF,
        c.t_states + 8 <= u32::MAX,
    ensures
        step(c, b) == Some(
            (CpuView { t_states: (c.t_states + 4) as u32, ..dec_reg(c.with_pc((c.pc + 1) as u16), r) }, b, 4u32),
        ),
{
    reveal(exec_block0);
    lemma_transforms_keep();
    let code = (0x05 + 8 * r) as u8;
    let c1 = c.with_pc((c.pc + 1) as u16);
    assert(fetch8(c, b) == Some((c1, b, code)));
    assert(code < 0x40 && (code / 8) % 8 == r && code % 8 == 5);
}

/// A step of LD r, n8 (0x06 + 8r): the register takes the byte after the
/// opcode, PC moves past both, 8 cycles.
pub proof fn lemma_step_load_imm(c: CpuView, b: BusView, r: int, v: u8)
    requires
        0 <= r <= 7,
        r != 6,
        byte_at(b, c.pc as int, (0x06 + 8 * r) as u8),
        byte_at(b, c.pc + 1, v),
        c.pc + 2 <= 0xFFFF,
        c.t_states + 8 <= u32::MAX,
    ensures
        step(c, b) == Some(
            (CpuView { t_states: (c.t_states + 8) as u32, ..c.with_pc((c.pc + 2) as u16).with_reg8(r, v) }, b, 8u32),
        ),
{
    reveal(exec_block0);
    reveal(load_imm);
    lemma_transforms_keep();
    let code = (0x06 + 8 * r) as u8;
    let c1 = c.with_pc((c.pc + 1) as u16);
    assert(fetch8(c, b) == Some((c1, b, code)));
    assert(code < 0x40 && (code / 8) % 8 == r && code % 8 == 6);
    assert(fetch8(c1, b) == Some((c.with_pc((c.pc + 2) as u16), b, v)));
}

/// A step of LD r, r' (0x40 + 8r + r'): register r takes register r's
/// value, PC past the opcode, 4 cycles.
pub proof fn lemma_step_load_reg(c: CpuView, b: BusView, r: int, q: int)
    requires
        0 <= r <= 7,
        r != 6,
        0 <= q <= 7,
        q != 6,
        byte_at(b, c.pc as int, (0x40 + 8 * r + q) as u8),
        c.pc < 0xFFFF,
        c.t_states + 8 <= u32::MAX,
    ensures
        step(c, b) == Some(
            (CpuView { t_states: (c.t_states + 4) as u32, ..c.with_pc((c.pc + 1) as u16).with_reg8(r, c.reg8(q)) }, b, 4u32),
        ),
{
    reveal(exec_block1);
    lemma_transforms_keep();
    let code = (0x40 + 8 * r + q) as u8;
    let c1 = c.with_pc((c.pc + 1) as u16);
    assert(fetch8(c, b) == Some((c1, b, code)));
    assert(0x40 <= code < 0x80 && code != 0x76 && (code / 8) % 8 == r && code % 8 == q);
    assert(c1.reg8(q) == c.reg8(q));
}

/// A step of INC rr (0x03 + 16p) or DEC rr (0x0B + 16p) for BC, DE, HL, SP:
/// the pair moves by one modulo 65536, the flags stay, 8 cycles.
pub proof fn lemma_step_inc_dec_pair(c: CpuView, b: BusView, p: int, op: u8)
    requires
        0 <= p < 4,
        byte_at(b, c.pc as int, op),
        c.pc < 0xFFFF,
        c.t_states + 8 <= u32::MAX,
    ensures
        op == 0x03 + 16 * p ==> step(c, b) == Some(
            (
                CpuView {
                    t_states: (c.t_states + 8) as u32,
                    ..c.with_pc((c.pc + 1) as u16).with_rp(p, ((c.rp(p) + 1) % 65536) as u16)
                },
                b,
                8u32,
            ),
        ),
        op == 0x0B + 16 * p ==> step(c, b) == Some(
            (
                CpuView {
                    t_states: (c.t_states + 8) as u32,
                    ..c.with_pc((c.pc + 1) as u16).with_rp(p, ((c.rp(p) + 65535) % 65536) as u16)
                },
                b,
                8u32,
            ),
        ),
{
    reveal(exec_block0);
    let c1 = c.with_pc((c.pc + 1) as u16);
    assert(fetch8(c, b) == Some((c1, b, op)));
    assert(c1.rp(p) == c.rp(p));
}

/// Steps of JP a16 (0xC3: PC takes the operand, 16 cycles), JR e8 (0x18:
/// PC moves by the signed offset from past the operand, 12 cycles) and
/// RET (0xC9: PC takes the word at SP, SP moves up by 2, 16 cycles).
pub proof fn lemma_step_jumps(c: CpuView, b: BusView, op: u8, l: u8, h: u8)
    requires
        byte_at(b, c.pc as int, op),
        byte_at(b, c.pc + 1, l),
        byte_at(b, c.pc + 2, h),
        c.pc + 3 <= 0xFFFF,
        c.t_states + 16 <= u32::MAX,
    ensures
        op == 0xC3 ==> step(c, b) == Some(
            (
                CpuView { pc: (h * 256 + l) as u16, t_states: (c.t_states + 16) as u32, ..c },
                b,
                16u32,
            ),
        ),
        op == 0x18 ==> step(c, b) == Some(
            (
                CpuView {
                    pc: ((c.pc + 2 + (if l < 128 {
                        l as int
                    } else {
                        l - 256
                    })) % 65536) as u16,
                    t_states: (c.t_states + 12) as u32,
                    ..c
                },
                b,
                12u32,
            ),
        ),
{
    reveal(exec_block0);
    reveal(exec_block3);
    reveal(jump_abs);
    reveal(jump_rel);
    let c1 = c.with_pc((c.pc + 1) as u16);
    assert(fetch8(c, b) == Some((c1, b, op)));
    assert(fetch16(c1, b) == Some((c.with_pc((c.pc + 3) as u16), b, word(h, l))));
}

/// A step of RET (0xC9): PC takes the word at SP, low byte first, and SP
/// moves up by 2, in 16 cycles.
pub proof fn lemma_step_ret(c: CpuView, b: BusView, l: u8, h: u8)
    requires
        byte_at(b, c.pc as int, 0xC9),
        byte_at(b, c.sp as int, l),
        byte_at(b, c.sp + 1, h),
        c.pc < 0xFFFF,
        c.sp + 2 <= 0xFFFF,
        c.t_states + 16 <= u32::MAX,
    ensures
        step(c, b) == Some(
            (
                CpuView {
                    pc: (h * 256 + l) as u16,
                    sp: (c.sp + 2) as u16,
                    t_states: (c.t_states + 16) as u32,
                    ..c
                },
                b,
                16u32,
            ),
        ),
{
    reveal(exec_block3);
    reveal(ret_with);
    let c1 = c.with_pc((c.pc + 1) as u16);
    assert(fetch8(c, b) == Some((c1, b, 0xC9u8)));
}

/// A step of RST n (0xC7 + 8k): the address past the opcode is pushed
/// (high byte first), SP goes down by 2 and PC takes 8k, in 16 cycles.
pub proof fn lemma_step_rst(c: CpuView, b: BusView, k: int)
    requires
        0 <= k < 8,
        byte_at(b, c.pc as int, (0xC7 + 8 * k) as u8),
        c.pc < 0xFFFF,
        c.t_states + 16 <= u32::MAX,
        b.sized(),
        stack_in_memory(c),
    ensures
        ({
            let ret = (c.pc + 1) as u16;
            step(c, b) matches Some((c2, b2, t)) && t == 16 && c2 == (CpuView {
                pc: (8 * k) as u16,
                sp: (c.sp - 2) as u16,
                t_states: (c.t_states + 16) as u32,
                ..c
            }) && b2.peek((c.sp - 1) as u16) == ret / 256 && b2.peek((c.sp - 2) as u16) == ret
                % 256
        }),
{
    reveal(exec_block3);
    reveal(call_to);
    let code = (0xC7 + 8 * k) as u8;
    let c1 = c.with_pc((c.pc + 1) as u16);
    let ret = (c.pc + 1) as u16;
    assert(fetch8(c, b) == Some((c1, b, code)));
    assert(code >= 0xC0 && (code / 8) % 8 == k && code % 8 == 7);
    lemma_memory_write_read(b, (c.sp - 1) as u16, hi(ret));
    let b1 = b.write((c.sp - 1) as u16, hi(ret)).unwrap();
    lemma_memory_write_read(b1, (c.sp - 2) as u16, lo(ret));
    lemma_memory_write_other(b1, (c.sp - 2) as u16, (c.sp - 1) as u16, lo(ret));
}

} // verus!
