use vstd::prelude::*;
use vstd::wrapping::{u8_specs, u16_specs};
use crate::mmu::{Mmu, MmuModel, is_ram, ram_cell, law_ram_read_after_write, law_ram_write_frame};

verus! {

pub const FLAG_Z: u8 = 0b1000_0000;
pub const FLAG_N: u8 = 0b0100_0000;
pub const FLAG_H: u8 = 0b0010_0000;
pub const FLAG_C: u8 = 0b0001_0000;

/// The SM83 register file and interrupt/halt state.
pub struct Cpu {
    pub a: u8,
    pub f: u8,
    pub b: u8,
    pub c: u8,
    pub d: u8,
    pub e: u8,
    pub h: u8,
    pub l: u8,
    pub sp: u16,
    pub pc: u16,
    pub ime: bool,
    pub ime_scheduled: bool,
    pub halted: bool,
    pub halt_bug: bool,
    pub stopped: bool,
}

/// Sign-extends an 8-bit displacement to 16 bits.
pub open spec fn sext16(d: u8) -> u16 {
    if d < 128 { d as u16 } else { (d + 0xFF00) as u16 }
}

/// The low nibble of a byte is at most 0xF.
proof fn lemma_nibbles(x: u8)
    by (bit_vector)
    ensures
        x & 0xF <= 0xF,
{
}

/// Facts about masked parts of a 16-bit word.
proof fn lemma_word_masks(x: u16)
    by (bit_vector)
    ensures
        x & 0xF <= 0xF,
        x & 0xFF <= 0xFF,
        x & 0xFFF <= 0xFFF,
{
}

proof fn lemma_sext16(d: u8)
    ensures
        d as i8 as i16 as u16 == sext16(d),
{
    assert(d as i8 as i16 as u16 == if d < 128 { d as u16 } else { (d + 0xFF00) as u16 }) by (bit_vector);
}

/// The 16-bit value with high byte `hi` and low byte `lo`.
pub open spec fn word(hi: u8, lo: u8) -> u16 {
    ((hi as u16) << 8u16) | (lo as u16)
}

pub open spec fn hi_byte(v: u16) -> u8 {
    (v >> 8u16) as u8
}

pub open spec fn lo_byte(v: u16) -> u8 {
    v as u8
}

impl Cpu {
    /// The register state right after the DMG boot ROM hands over.
    pub open spec fn boot_state() -> Cpu {
        Cpu {
            a: 0x01,
            f: 0xB0,
            b: 0x00,
            c: 0x13,
            d: 0x00,
            e: 0xD8,
            h: 0x01,
            l: 0x4D,
            sp: 0xFFFE,
            pc: 0x0100,
            ime: false,
            ime_scheduled: false,
            halted: false,
            halt_bug: false,
            stopped: false,
        }
    }

    pub open spec fn af_spec(self) -> u16 {
        word(self.a, self.f & 0xF0)
    }

    pub open spec fn bc_spec(self) -> u16 {
        word(self.b, self.c)
    }

    pub open spec fn de_spec(self) -> u16 {
        word(self.d, self.e)
    }

    pub open spec fn hl_spec(self) -> u16 {
        word(self.h, self.l)
    }

    pub open spec fn with_bc(self, v: u16) -> Cpu {
        Cpu { b: hi_byte(v), c: lo_byte(v), ..self }
    }

    pub open spec fn with_de(self, v: u16) -> Cpu {
        Cpu { d: hi_byte(v), e: lo_byte(v), ..self }
    }

    pub open spec fn with_hl(self, v: u16) -> Cpu {
        Cpu { h: hi_byte(v), l: lo_byte(v), ..self }
    }

    /// AF is written with the low nibble of F forced to zero.
    pub open spec fn with_af(self, v: u16) -> Cpu {
        Cpu { a: hi_byte(v), f: (v & 0xF0) as u8, ..self }
    }

    pub open spec fn flag_spec(self, mask: u8) -> bool {
        self.f & mask != 0
    }

    pub open spec fn with_flag(self, mask: u8, on: bool) -> Cpu {
        Cpu { f: if on { self.f | mask } else { self.f & !mask }, ..self }
    }

    /// All four flags set at once, as the arithmetic instructions do.
    pub open spec fn with_flags(self, z: bool, n: bool, h: bool, c: bool) -> Cpu {
        self.with_flag(FLAG_Z, z).with_flag(FLAG_N, n).with_flag(FLAG_H, h).with_flag(FLAG_C, c)
    }

    /// Register pair p of the `rp` table: BC, DE, HL, SP.
    pub open spec fn rp_spec(self, p: u8) -> u16 {
        if p == 0 {
            self.bc_spec()
        } else if p == 1 {
            self.de_spec()
        } else if p == 2 {
            self.hl_spec()
        } else {
            self.sp
        }
    }

    pub open spec fn with_rp(self, p: u8, v: u16) -> Cpu {
        if p == 0 {
            self.with_bc(v)
        } else if p == 1 {
            self.with_de(v)
        } else if p == 2 {
            self.with_hl(v)
        } else {
            Cpu { sp: v, ..self }
        }
    }

    /// Register pair p of the `rp2` table: BC, DE, HL, AF.
    pub open spec fn rp2_spec(self, p: u8) -> u16 {
        if p == 3 { self.af_spec() } else { self.rp_spec(p) }
    }

    pub open spec fn with_rp2(self, p: u8, v: u16) -> Cpu {
        if p == 3 { self.with_af(v) } else { self.with_rp(p, v) }
    }

    /// Condition y (mod 4) of conditional jumps: NZ, Z, NC, C.
    pub open spec fn cond_spec(self, y: u8) -> bool {
        let k = y & 3;
        if k == 0 {
            !self.flag_spec(FLAG_Z)
        } else if k == 1 {
            self.flag_spec(FLAG_Z)
        } else if k == 2 {
            !self.flag_spec(FLAG_C)
        } else {
            self.flag_spec(FLAG_C)
        }
    }

    /// The 8-bit ALU operation `op` (ADD, ADC, SUB, SBC, AND, XOR, OR, CP) on A and `val`.
    pub open spec fn alu_spec(self, op: u8, val: u8) -> Cpu {
        let a = self.a;
        let carry: int = if self.flag_spec(FLAG_C) { 1 } else { 0 };
        if op == 0 {
            let r = u8_specs::wrapping_add(a, val);
            Cpu { a: r, ..self }.with_flags(r == 0, false, (a & 0xF) + (val & 0xF) > 0xF, a + val > 0xFF)
        } else if op == 1 {
            let sum = a + val + carry;
            let r = (sum % 256) as u8;
            Cpu { a: r, ..self }.with_flags(r == 0, false, (a & 0xF) + (val & 0xF) + carry > 0xF, sum > 0xFF)
        } else if op == 2 {
            let r = u8_specs::wrapping_sub(a, val);
            Cpu { a: r, ..self }.with_flags(r == 0, true, (a & 0xF) < (val & 0xF), a < val)
        } else if op == 3 {
            let diff = a - val - carry;
            let r = (if diff < 0 { diff + 256 } else { diff }) as u8;
            Cpu { a: r, ..self }.with_flags(r == 0, true, (a & 0xF) - (val & 0xF) - carry < 0, diff < 0)
        } else if op == 4 {
            let r = a & val;
            Cpu { a: r, ..self }.with_flags(r == 0, false, true, false)
        } else if op == 5 {
            let r = a ^ val;
            Cpu { a: r, ..self }.with_flags(r == 0, false, false, false)
        } else if op == 6 {
            let r = a | val;
            Cpu { a: r, ..self }.with_flags(r == 0, false, false, false)
        } else {
            let r = u8_specs::wrapping_sub(a, val);
            self.with_flags(r == 0, true, (a & 0xF) < (val & 0xF), a < val)
        }
    }

    /// INC of an 8-bit value: the result and the flags (C unchanged).
    pub open spec fn inc8_spec(self, v: u8) -> (Cpu, u8) {
        let r = u8_specs::wrapping_add(v, 1);
        (self.with_flag(FLAG_Z, r == 0).with_flag(FLAG_N, false).with_flag(FLAG_H, (v & 0xF) == 0xF), r)
    }

    /// DEC of an 8-bit value: the result and the flags (C unchanged).
    pub open spec fn dec8_spec(self, v: u8) -> (Cpu, u8) {
        let r = u8_specs::wrapping_sub(v, 1);
        (self.with_flag(FLAG_Z, r == 0).with_flag(FLAG_N, true).with_flag(FLAG_H, (v & 0xF) == 0), r)
    }

    /// A shift/rotate result `r` with carry-out `c`: Z from r, N and H cleared.
    pub open spec fn shifted(self, r: u8, c: bool) -> (Cpu, u8) {
        (self.with_flags(r == 0, false, false, c), r)
    }

    pub open spec fn rlc_spec(self, v: u8) -> (Cpu, u8) {
        self.shifted((v << 1u8) | (v >> 7u8), v & 0x80 != 0)
    }

    pub open spec fn rrc_spec(self, v: u8) -> (Cpu, u8) {
        self.shifted((v >> 1u8) | (v << 7u8), v & 0x01 != 0)
    }

    pub open spec fn rl_spec(self, v: u8) -> (Cpu, u8) {
        self.shifted((v << 1u8) | (if self.flag_spec(FLAG_C) { 1u8 } else { 0 }), v & 0x80 != 0)
    }

    pub open spec fn rr_spec(self, v: u8) -> (Cpu, u8) {
        self.shifted((v >> 1u8) | (if self.flag_spec(FLAG_C) { 0x80u8 } else { 0 }), v & 0x01 != 0)
    }

    pub open spec fn sla_spec(self, v: u8) -> (Cpu, u8) {
        self.shifted(v << 1u8, v & 0x80 != 0)
    }

    pub open spec fn sra_spec(self, v: u8) -> (Cpu, u8) {
        self.shifted((v >> 1u8) | (v & 0x80), v & 0x01 != 0)
    }

    pub open spec fn swap_spec(self, v: u8) -> (Cpu, u8) {
        self.shifted((v << 4u8) | (v >> 4u8), false)
    }

    pub open spec fn srl_spec(self, v: u8) -> (Cpu, u8) {
        self.shifted(v >> 1u8, v & 0x01 != 0)
    }

    /// The CB-prefixed shift/rotate `y` of `v`.
    pub open spec fn shift_op_spec(self, y: u8, v: u8) -> (Cpu, u8) {
        if y == 0 {
            self.rlc_spec(v)
        } else if y == 1 {
            self.rrc_spec(v)
        } else if y == 2 {
            self.rl_spec(v)
        } else if y == 3 {
            self.rr_spec(v)
        } else if y == 4 {
            self.sla_spec(v)
        } else if y == 5 {
            self.sra_spec(v)
        } else if y == 6 {
            self.swap_spec(v)
        } else {
            self.srl_spec(v)
        }
    }

    /// DAA: decimal adjustment of A after a BCD addition or subtraction.
    pub open spec fn daa_spec(self) -> Cpu {
        let a = self.a;
        let n = self.flag_spec(FLAG_N);
        let low: u8 = if self.flag_spec(FLAG_H) || (!n && (a & 0xF) > 9) { 0x06 } else { 0 };
        let high: bool = self.flag_spec(FLAG_C) || (!n && a > 0x99);
        let adjust: u8 = low | (if high { 0x60u8 } else { 0 });
        let r = if n { u8_specs::wrapping_sub(a, adjust) } else { u8_specs::wrapping_add(a, adjust) };
        Cpu { a: r, ..self }.with_flag(FLAG_Z, r == 0).with_flag(FLAG_H, false).with_flag(
            FLAG_C,
            self.flag_spec(FLAG_C) || high,
        )
    }
}

impl Cpu {
    pub fn new() -> (c: Self)
        ensures
            c == Cpu::boot_state(),
    {
        Cpu {
            a: 0x01,
            f: 0xB0,
            b: 0x00,
            c: 0x13,
            d: 0x00,
            e: 0xD8,
            h: 0x01,
            l: 0x4D,
            sp: 0xFFFE,
            pc: 0x0100,
            ime: false,
            ime_scheduled: false,
            halted: false,
            halt_bug: false,
            stopped: false,
        }
    }

    fn af(&self) -> (r: u16)
        ensures
            r == self.af_spec(),
    {
        ((self.a as u16) << 8) | (self.f as u16 & 0xF0)
    }

    fn set_af(&mut self, v: u16)
        ensures
            *final(self) == old(self).with_af(v),
    {
        self.a = (v >> 8) as u8;
        self.f = (v & 0xF0) as u8;
    }

    fn bc(&self) -> (r: u16)
        ensures
            r == self.bc_spec(),
    {
        ((self.b as u16) << 8) | self.c as u16
    }

    fn set_bc(&mut self, v: u16)
        ensures
            *final(self) == old(self).with_bc(v),
    {
        self.b = (v >> 8) as u8;
        self.c = v as u8;
    }

    fn de(&self) -> (r: u16)
        ensures
            r == self.de_spec(),
    {
        ((self.d as u16) << 8) | self.e as u16
    }

    fn set_de(&mut self, v: u16)
        ensures
            *final(self) == old(self).with_de(v),
    {
        self.d = (v >> 8) as u8;
        self.e = v as u8;
    }

    fn hl(&self) -> (r: u16)
        ensures
            r == self.hl_spec(),
    {
        ((self.h as u16) << 8) | self.l as u16
    }

    fn set_hl(&mut self, v: u16)
        ensures
            *final(self) == old(self).with_hl(v),
    {
        self.h = (v >> 8) as u8;
        self.l = v as u8;
    }

    fn flag(&self, mask: u8) -> (r: bool)
        ensures
            r == self.flag_spec(mask),
    {
        self.f & mask != 0
    }

    fn set_flag(&mut self, mask: u8, on: bool)
        ensures
            *final(self) == old(self).with_flag(mask, on),
    {
        if on {
            self.f |= mask;
        } else {
            self.f &= !mask;
        }
    }

    fn set_flags(&mut self, z: bool, n: bool, h: bool, c: bool)
        ensures
            *final(self) == old(self).with_flags(z, n, h, c),
    {
        self.set_flag(FLAG_Z, z);
        self.set_flag(FLAG_N, n);
        self.set_flag(FLAG_H, h);
        self.set_flag(FLAG_C, c);
    }

    fn get_rp(&self, p: u8) -> (r: u16)
        requires
            p <= 3,
        ensures
            r == self.rp_spec(p),
    {
        match p {
            0 => self.bc(),
            1 => self.de(),
            2 => self.hl(),
            _ => self.sp,
        }
    }

    fn set_rp(&mut self, p: u8, v: u16)
        requires
            p <= 3,
        ensures
            *final(self) == old(self).with_rp(p, v),
    {
        match p {
            0 => self.set_bc(v),
            1 => self.set_de(v),
            2 => self.set_hl(v),
            _ => self.sp = v,
        }
    }

    fn get_rp2(&self, p: u8) -> (r: u16)
        requires
            p <= 3,
        ensures
            r == self.rp2_spec(p),
    {
        match p {
            0 => self.bc(),
            1 => self.de(),
            2 => self.hl(),
            _ => self.af(),
        }
    }

    fn set_rp2(&mut self, p: u8, v: u16)
        requires
            p <= 3,
        ensures
            *final(self) == old(self).with_rp2(p, v),
    {
        match p {
            0 => self.set_bc(v),
            1 => self.set_de(v),
            2 => self.set_hl(v),
            _ => self.set_af(v),
        }
    }

    fn cond(&self, y: u8) -> (r: bool)
        ensures
            r == self.cond_spec(y),
    {
        match y & 3 {
            0 => !self.flag(FLAG_Z),
            1 => self.flag(FLAG_Z),
            2 => !self.flag(FLAG_C),
            _ => self.flag(FLAG_C),
        }
    }

    fn alu(&mut self, op: u8, val: u8)
        requires
            op <= 7,
        ensures
            *final(self) == old(self).alu_spec(op, val),
    {
        let a = self.a;
        proof {
            lemma_nibbles(a);
            lemma_nibbles(val);
        }
        match op {
            0 => {
                // ADD
                let r = a.wrapping_add(val);
                let c = a as u16 + val as u16 > 0xFF;
                let h = (a & 0xF) + (val & 0xF) > 0xF;
                self.a = r;
                self.set_flags(r == 0, false, h, c);
            },
            1 => {
                // ADC
                let carry: u16 = if self.flag(FLAG_C) { 1 } else { 0 };
                let sum = a as u16 + val as u16 + carry;
                let h = (a & 0xF) + (val & 0xF) + carry as u8 > 0xF;
                self.a = (sum % 256) as u8;
                self.set_flags(self.a == 0, false, h, sum > 0xFF);
            },
            2 => {
                // SUB
                let r = a.wrapping_sub(val);
                let c = a < val;
                let h = (a & 0xF) < (val & 0xF);
                self.a = r;
                self.set_flags(r == 0, true, h, c);
            },
            3 => {
                // SBC
                let carry: i16 = if self.flag(FLAG_C) { 1 } else { 0 };
                let diff = a as i16 - val as i16 - carry;
                let h = (a as i16 & 0xF) - (val as i16 & 0xF) - carry < 0;
                self.a = (if diff < 0 { diff + 256 } else { diff }) as u8;
                self.set_flags(self.a == 0, true, h, diff < 0);
            },
            4 => {
                // AND
                self.a &= val;
                self.set_flags(self.a == 0, false, true, false);
            },
            5 => {
                // XOR
                self.a ^= val;
                self.set_flags(self.a == 0, false, false, false);
            },
            6 => {
                // OR
                self.a |= val;
                self.set_flags(self.a == 0, false, false, false);
            },
            _ => {
                // CP
                let r = a.wrapping_sub(val);
                let c = a < val;
                let h = (a & 0xF) < (val & 0xF);
                self.set_flags(r == 0, true, h, c);
            },
        }
    }

    fn inc8(&mut self, v: u8) -> (r: u8)
        ensures
            (*final(self), r) == old(self).inc8_spec(v),
    {
        let r = v.wrapping_add(1);
        self.set_flag(FLAG_Z, r == 0);
        self.set_flag(FLAG_N, false);
        self.set_flag(FLAG_H, (v & 0xF) == 0xF);
        r
    }

    fn dec8(&mut self, v: u8) -> (r: u8)
        ensures
            (*final(self), r) == old(self).dec8_spec(v),
    {
        let r = v.wrapping_sub(1);
        self.set_flag(FLAG_Z, r == 0);
        self.set_flag(FLAG_N, true);
        self.set_flag(FLAG_H, (v & 0xF) == 0);
        r
    }

    fn rlc(&mut self, v: u8) -> (r: u8)
        ensures
            (*final(self), r) == old(self).rlc_spec(v),
    {
        let c = v & 0x80 != 0;
        let r = (v << 1) | (v >> 7);
        self.set_flags(r == 0, false, false, c);
        r
    }

    fn rrc(&mut self, v: u8) -> (r: u8)
        ensures
            (*final(self), r) == old(self).rrc_spec(v),
    {
        let c = v & 0x01 != 0;
        let r = (v >> 1) | (v << 7);
        self.set_flags(r == 0, false, false, c);
        r
    }

    fn rl(&mut self, v: u8) -> (r: u8)
        ensures
            (*final(self), r) == old(self).rl_spec(v),
    {
        let old_c: u8 = if self.flag(FLAG_C) { 1 } else { 0 };
        let c = v & 0x80 != 0;
        let r = (v << 1) | old_c;
        self.set_flags(r == 0, false, false, c);
        r
    }

    fn rr(&mut self, v: u8) -> (r: u8)
        ensures
            (*final(self), r) == old(self).rr_spec(v),
    {
        let old_c: u8 = if self.flag(FLAG_C) { 0x80 } else { 0 };
        let c = v & 0x01 != 0;
        let r = (v >> 1) | old_c;
        self.set_flags(r == 0, false, false, c);
        r
    }

    fn sla(&mut self, v: u8) -> (r: u8)
        ensures
            (*final(self), r) == old(self).sla_spec(v),
    {
        let c = v & 0x80 != 0;
        let r = v << 1;
        self.set_flags(r == 0, false, false, c);
        r
    }

    fn sra(&mut self, v: u8) -> (r: u8)
        ensures
            (*final(self), r) == old(self).sra_spec(v),
    {
        let c = v & 0x01 != 0;
        let r = (v >> 1) | (v & 0x80);
        self.set_flags(r == 0, false, false, c);
        r
    }

    fn swap(&mut self, v: u8) -> (r: u8)
        ensures
            (*final(self), r) == old(self).swap_spec(v),
    {
        let r = (v << 4) | (v >> 4);
        self.set_flags(r == 0, false, false, false);
        r
    }

    fn srl(&mut self, v: u8) -> (r: u8)
        ensures
            (*final(self), r) == old(self).srl_spec(v),
    {
        let c = v & 0x01 != 0;
        let r = v >> 1;
        self.set_flags(r == 0, false, false, c);
        r
    }

    fn daa(&mut self)
        ensures
            *final(self) == old(self).daa_spec(),
    {
        let a = self.a;
        let n = self.flag(FLAG_N);
        let low: u8 = if self.flag(FLAG_H) || (!n && (a & 0xF) > 9) { 0x06 } else { 0 };
        let high = self.flag(FLAG_C) || (!n && a > 0x99);
        let adjust: u8 = low | (if high { 0x60u8 } else { 0 });
        let carry = self.flag(FLAG_C) || high;
        let r = if n { a.wrapping_sub(adjust) } else { a.wrapping_add(adjust) };
        self.a = r;
        self.set_flag(FLAG_Z, r == 0);
        self.set_flag(FLAG_H, false);
        self.set_flag(FLAG_C, carry);
    }
}

impl Cpu {
    /// Reads the byte at PC and advances PC.
    pub open spec fn fetch_spec(self, m: MmuModel) -> (Cpu, u8) {
        (Cpu { pc: u16_specs::wrapping_add(self.pc, 1), ..self }, m.read(self.pc))
    }

    /// Reads a little-endian 16-bit operand at PC and advances PC past it.
    pub open spec fn fetch16_spec(self, m: MmuModel) -> (Cpu, u16) {
        let (c1, lo) = self.fetch_spec(m);
        let (c2, hi) = c1.fetch_spec(m);
        (c2, word(hi, lo))
    }

    /// Operand r[idx]: B, C, D, E, H, L, (HL), A.
    pub open spec fn r8_spec(self, m: MmuModel, idx: u8) -> u8 {
        if idx == 0 {
            self.b
        } else if idx == 1 {
            self.c
        } else if idx == 2 {
            self.d
        } else if idx == 3 {
            self.e
        } else if idx == 4 {
            self.h
        } else if idx == 5 {
            self.l
        } else if idx == 6 {
            m.read(self.hl_spec())
        } else {
            self.a
        }
    }

    /// Stores `v` into operand r[idx].
    pub open spec fn with_r8(self, m: MmuModel, idx: u8, v: u8) -> (Cpu, MmuModel) {
        if idx == 0 {
            (Cpu { b: v, ..self }, m)
        } else if idx == 1 {
            (Cpu { c: v, ..self }, m)
        } else if idx == 2 {
            (Cpu { d: v, ..self }, m)
        } else if idx == 3 {
            (Cpu { e: v, ..self }, m)
        } else if idx == 4 {
            (Cpu { h: v, ..self }, m)
        } else if idx == 5 {
            (Cpu { l: v, ..self }, m)
        } else if idx == 6 {
            (self, m.write(self.hl_spec(), v))
        } else {
            (Cpu { a: v, ..self }, m)
        }
    }

    /// Pushes `v`: high byte at SP-1, low byte at SP-2.
    pub open spec fn push_spec(self, m: MmuModel, v: u16) -> (Cpu, MmuModel) {
        let sp1 = u16_specs::wrapping_sub(self.sp, 1);
        let m1 = m.write(sp1, hi_byte(v));
        let sp2 = u16_specs::wrapping_sub(sp1, 1);
        let m2 = m1.write(sp2, lo_byte(v));
        (Cpu { sp: sp2, ..self }, m2)
    }

    /// Pops a 16-bit value: low byte at SP, high byte at SP+1.
    pub open spec fn pop_spec(self, m: MmuModel) -> (Cpu, u16) {
        let lo = m.read(self.sp);
        let sp1 = u16_specs::wrapping_add(self.sp, 1);
        let hi = m.read(sp1);
        (Cpu { sp: u16_specs::wrapping_add(sp1, 1), ..self }, word(hi, lo))
    }

    /// Relative jump by the signed displacement `d`.
    pub open spec fn jr_target(self, d: u8) -> u16 {
        u16_specs::wrapping_add(self.pc, sext16(d))
    }

    /// Opcodes 0x00..0x3F with z == 0: NOP, LD (nn),SP, STOP, JR, JR cc.
    pub open spec fn exec_x0_z0(self, m: MmuModel, y: u8) -> (Cpu, MmuModel, u32) {
        if y == 0 {
            (self, m, 4)
        } else if y == 1 {
            let (c1, addr) = self.fetch16_spec(m);
            let m1 = m.write(addr, lo_byte(self.sp));
            let m2 = m1.write(u16_specs::wrapping_add(addr, 1), hi_byte(self.sp));
            (c1, m2, 20)
        } else if y == 2 {
            let (c1, _) = self.fetch_spec(m);
            (Cpu { stopped: true, ..c1 }, m, 4)
        } else if y == 3 {
            let (c1, d) = self.fetch_spec(m);
            (Cpu { pc: c1.jr_target(d), ..c1 }, m, 12)
        } else {
            let (c1, d) = self.fetch_spec(m);
            if c1.cond_spec((y - 4) as u8) { (Cpu { pc: c1.jr_target(d), ..c1 }, m, 12) } else { (c1, m, 8) }
        }
    }

    /// z == 1: LD rp,nn and ADD HL,rp.
    pub open spec fn exec_x0_z1(self, m: MmuModel, p: u8, q: u8) -> (Cpu, MmuModel, u32) {
        if q == 0 {
            let (c1, nn) = self.fetch16_spec(m);
            (c1.with_rp(p, nn), m, 12)
        } else {
            let hl = self.hl_spec();
            let rp = self.rp_spec(p);
            let r = u16_specs::wrapping_add(hl, rp);
            let c1 = self.with_hl(r).with_flag(FLAG_N, false).with_flag(
                FLAG_H,
                (hl & 0xFFF) + (rp & 0xFFF) > 0xFFF,
            ).with_flag(FLAG_C, hl + rp > 0xFFFF);
            (c1, m, 8)
        }
    }

    /// z == 2: LD (BC)/(DE)/(HL+)/(HL-),A and the loads back into A.
    pub open spec fn exec_x0_z2(self, m: MmuModel, p: u8, q: u8) -> (Cpu, MmuModel, u32) {
        let addr = if p == 0 { self.bc_spec() } else if p == 1 { self.de_spec() } else { self.hl_spec() };
        let c0 = if p == 2 {
            self.with_hl(u16_specs::wrapping_add(self.hl_spec(), 1))
        } else if p == 3 {
            self.with_hl(u16_specs::wrapping_sub(self.hl_spec(), 1))
        } else {
            self
        };
        if q == 0 {
            (c0, m.write(addr, self.a), 8)
        } else {
            (Cpu { a: m.read(addr), ..c0 }, m, 8)
        }
    }

    /// z == 3: INC rp / DEC rp.
    pub open spec fn exec_x0_z3(self, m: MmuModel, p: u8, q: u8) -> (Cpu, MmuModel, u32) {
        let rp = self.rp_spec(p);
        let v = if q == 0 { u16_specs::wrapping_add(rp, 1) } else { u16_specs::wrapping_sub(rp, 1) };
        (self.with_rp(p, v), m, 8)
    }

    /// z == 4, 5, 6: INC r, DEC r, LD r,n.
    pub open spec fn exec_x0_z456(self, m: MmuModel, y: u8, z: u8) -> (Cpu, MmuModel, u32) {
        if z == 6 {
            let (c1, n) = self.fetch_spec(m);
            let (c2, m2) = c1.with_r8(m, y, n);
            (c2, m2, if y == 6 { 12 } else { 8 })
        } else {
            let v = self.r8_spec(m, y);
            let (c1, r) = if z == 4 { self.inc8_spec(v) } else { self.dec8_spec(v) };
            let (c2, m2) = c1.with_r8(m, y, r);
            (c2, m2, if y == 6 { 12 } else { 4 })
        }
    }

    /// z == 7: RLCA, RRCA, RLA, RRA (Z always cleared), DAA, CPL, SCF, CCF.
    pub open spec fn exec_x0_z7(self, y: u8) -> Cpu {
        if y <= 3 {
            let (c1, r) = if y == 0 {
                self.rlc_spec(self.a)
            } else if y == 1 {
                self.rrc_spec(self.a)
            } else if y == 2 {
                self.rl_spec(self.a)
            } else {
                self.rr_spec(self.a)
            };
            Cpu { a: r, ..c1 }.with_flag(FLAG_Z, false)
        } else if y == 4 {
            self.daa_spec()
        } else if y == 5 {
            Cpu { a: !self.a, ..self }.with_flag(FLAG_N, true).with_flag(FLAG_H, true)
        } else if y == 6 {
            self.with_flag(FLAG_N, false).with_flag(FLAG_H, false).with_flag(FLAG_C, true)
        } else {
            let c1 = self.with_flag(FLAG_N, false).with_flag(FLAG_H, false);
            c1.with_flag(FLAG_C, !c1.flag_spec(FLAG_C))
        }
    }

    /// Opcodes 0x00..0x3F.
    pub open spec fn exec_x0(self, m: MmuModel, y: u8, z: u8, p: u8, q: u8) -> (Cpu, MmuModel, u32) {
        if z == 0 {
            self.exec_x0_z0(m, y)
        } else if z == 1 {
            self.exec_x0_z1(m, p, q)
        } else if z == 2 {
            self.exec_x0_z2(m, p, q)
        } else if z == 3 {
            self.exec_x0_z3(m, p, q)
        } else if z <= 6 {
            self.exec_x0_z456(m, y, z)
        } else {
            (self.exec_x0_z7(y), m, 4)
        }
    }

    /// Opcodes 0x40..0x7F: LD r,r' and HALT (0x76). HALT with IME off and an
    /// interrupt already pending does not halt but triggers the halt bug.
    pub open spec fn exec_x1(self, m: MmuModel, y: u8, z: u8) -> (Cpu, MmuModel, u32) {
        if z == 6 && y == 6 {
            if !self.ime && m.pending() != 0 {
                (Cpu { halt_bug: true, ..self }, m, 4)
            } else {
                (Cpu { halted: true, ..self }, m, 4)
            }
        } else {
            let v = self.r8_spec(m, z);
            let (c1, m1) = self.with_r8(m, y, v);
            (c1, m1, if y == 6 || z == 6 { 8 } else { 4 })
        }
    }

    /// Opcodes 0x80..0xBF: ALU operation y on A and r[z].
    pub open spec fn exec_x2(self, m: MmuModel, y: u8, z: u8) -> (Cpu, MmuModel, u32) {
        (self.alu_spec(y, self.r8_spec(m, z)), m, if z == 6 { 8 } else { 4 })
    }

    /// SP plus a signed 8-bit displacement, and the flags that ADD SP,e sets.
    pub open spec fn sp_offset(self, d: u8) -> (Cpu, u16) {
        let e = sext16(d);
        let sp = self.sp;
        (self.with_flags(false, false, (sp & 0xF) + (e & 0xF) > 0xF, (sp & 0xFF) + (e & 0xFF) > 0xFF),
            u16_specs::wrapping_add(sp, e))
    }

    /// Opcodes 0xC0..0xFF other than the CB prefix.
    pub open spec fn exec_x3(self, m: MmuModel, op: u8, y: u8, p: u8) -> (Cpu, MmuModel, u32) {
        if op == 0xC0 || op == 0xC8 || op == 0xD0 || op == 0xD8 {
            if self.cond_spec(y) {
                let (c1, v) = self.pop_spec(m);
                (Cpu { pc: v, ..c1 }, m, 20)
            } else {
                (self, m, 8)
            }
        } else if op == 0xC9 {
            let (c1, v) = self.pop_spec(m);
            (Cpu { pc: v, ..c1 }, m, 16)
        } else if op == 0xD9 {
            let (c1, v) = self.pop_spec(m);
            (Cpu { pc: v, ime: true, ..c1 }, m, 16)
        } else if op == 0xC1 || op == 0xD1 || op == 0xE1 || op == 0xF1 {
            let (c1, v) = self.pop_spec(m);
            (c1.with_rp2(p, v), m, 12)
        } else if op == 0xC5 || op == 0xD5 || op == 0xE5 || op == 0xF5 {
            let (c1, m1) = self.push_spec(m, self.rp2_spec(p));
            (c1, m1, 16)
        } else if op == 0xC2 || op == 0xCA || op == 0xD2 || op == 0xDA {
            let (c1, nn) = self.fetch16_spec(m);
            if c1.cond_spec(y) { (Cpu { pc: nn, ..c1 }, m, 16) } else { (c1, m, 12) }
        } else if op == 0xC3 {
            let (c1, nn) = self.fetch16_spec(m);
            (Cpu { pc: nn, ..c1 }, m, 16)
        } else if op == 0xE9 {
            (Cpu { pc: self.hl_spec(), ..self }, m, 4)
        } else if op == 0xC4 || op == 0xCC || op == 0xD4 || op == 0xDC {
            let (c1, nn) = self.fetch16_spec(m);
            if c1.cond_spec(y) {
                let (c2, m2) = c1.push_spec(m, c1.pc);
                (Cpu { pc: nn, ..c2 }, m2, 24)
            } else {
                (c1, m, 12)
            }
        } else if op == 0xCD {
            let (c1, nn) = self.fetch16_spec(m);
            let (c2, m2) = c1.push_spec(m, c1.pc);
            (Cpu { pc: nn, ..c2 }, m2, 24)
        } else if op == 0xC6 || op == 0xCE || op == 0xD6 || op == 0xDE || op == 0xE6 || op == 0xEE
            || op == 0xF6 || op == 0xFE {
            let (c1, n) = self.fetch_spec(m);
            (c1.alu_spec(y, n), m, 8)
        } else if op == 0xC7 || op == 0xCF || op == 0xD7 || op == 0xDF || op == 0xE7 || op == 0xEF
            || op == 0xF7 || op == 0xFF {
            let (c1, m1) = self.push_spec(m, self.pc);
            (Cpu { pc: (y * 8) as u16, ..c1 }, m1, 16)
        } else if op == 0xE0 {
            let (c1, n) = self.fetch_spec(m);
            (c1, m.write((0xFF00 + n) as u16, self.a), 12)
        } else if op == 0xF0 {
            let (c1, n) = self.fetch_spec(m);
            (Cpu { a: m.read((0xFF00 + n) as u16), ..c1 }, m, 12)
        } else if op == 0xE2 {
            (self, m.write((0xFF00 + self.c) as u16, self.a), 8)
        } else if op == 0xF2 {
            (Cpu { a: m.read((0xFF00 + self.c) as u16), ..self }, m, 8)
        } else if op == 0xEA {
            let (c1, nn) = self.fetch16_spec(m);
            (c1, m.write(nn, self.a), 16)
        } else if op == 0xFA {
            let (c1, nn) = self.fetch16_spec(m);
            (Cpu { a: m.read(nn), ..c1 }, m, 16)
        } else if op == 0xE8 {
            let (c1, d) = self.fetch_spec(m);
            let (c2, r) = c1.sp_offset(d);
            (Cpu { sp: r, ..c2 }, m, 16)
        } else if op == 0xF8 {
            let (c1, d) = self.fetch_spec(m);
            let (c2, r) = c1.sp_offset(d);
            (c2.with_hl(r), m, 12)
        } else if op == 0xF9 {
            (Cpu { sp: self.hl_spec(), ..self }, m, 8)
        } else if op == 0xF3 {
            (Cpu { ime: false, ime_scheduled: false, ..self }, m, 4)
        } else if op == 0xFB {
            (Cpu { ime_scheduled: true, ..self }, m, 4)
        } else {
            (self, m, 4)
        }
    }

    /// CB-prefixed instructions: shifts/rotates, BIT, RES, SET on r[z].
    pub open spec fn exec_cb(self, m: MmuModel) -> (Cpu, MmuModel, u32) {
        let (c1, op) = self.fetch_spec(m);
        let x = op >> 6u8;
        let y = (op >> 3u8) & 7;
        let z = op & 7;
        let v = c1.r8_spec(m, z);
        let base: u32 = if z == 6 { 16 } else { 8 };
        if x == 0 {
            let (c2, r) = c1.shift_op_spec(y, v);
            let (c3, m3) = c2.with_r8(m, z, r);
            (c3, m3, base)
        } else if x == 1 {
            let c2 = c1.with_flag(FLAG_Z, v & (1u8 << y) == 0).with_flag(FLAG_N, false).with_flag(FLAG_H, true);
            (c2, m, if z == 6 { 12 } else { 8 })
        } else if x == 2 {
            let (c2, m2) = c1.with_r8(m, z, v & !(1u8 << y));
            (c2, m2, base)
        } else {
            let (c2, m2) = c1.with_r8(m, z, v | (1u8 << y));
            (c2, m2, base)
        }
    }

    /// Executes opcode `op` (already fetched): the new state and its T-cycles.
    pub open spec fn exec_spec(self, m: MmuModel, op: u8) -> (Cpu, MmuModel, u32) {
        let x = op >> 6u8;
        let y = (op >> 3u8) & 7;
        let z = op & 7;
        let p = y >> 1u8;
        let q = y & 1;
        if x == 0 {
            self.exec_x0(m, y, z, p, q)
        } else if x == 1 {
            self.exec_x1(m, y, z)
        } else if x == 2 {
            self.exec_x2(m, y, z)
        } else if op == 0xCB {
            self.exec_cb(m)
        } else {
            self.exec_x3(m, op, y, p)
        }
    }
}

/// The bit number of the highest-priority pending interrupt (VBlank first).
pub open spec fn interrupt_bit(pending: u8) -> u8 {
    if pending & 0x01 != 0 {
        0
    } else if pending & 0x02 != 0 {
        1
    } else if pending & 0x04 != 0 {
        2
    } else if pending & 0x08 != 0 {
        3
    } else {
        4
    }
}

impl Cpu {
    /// Interrupt dispatch: with IME set and an interrupt pending, clears IME
    /// and HALT, acknowledges the interrupt in IF, pushes PC and jumps to its
    /// vector (0x40 + 8 * bit), taking 20 T-cycles.
    pub open spec fn interrupt_spec(self, m: MmuModel) -> (Cpu, MmuModel, u32) {
        let pending = m.pending();
        if pending == 0 || !self.ime {
            (self, m, 0)
        } else {
            let bit = interrupt_bit(pending);
            let m1 = MmuModel { if_flag: m.if_flag & !(1u8 << bit), ..m };
            let c1 = Cpu { ime: false, halted: false, ..self };
            let (c2, m2) = c1.push_spec(m1, self.pc);
            (Cpu { pc: (0x40 + bit * 8) as u16, ..c2 }, m2, 20)
        }
    }

    /// One step: a scheduled EI takes effect, a halted CPU idles 4 cycles
    /// until an interrupt is pending, otherwise one instruction runs (the
    /// halt bug re-reads its opcode byte), then interrupts are dispatched.
    pub open spec fn step_spec(self, m: MmuModel) -> (Cpu, MmuModel, u32) {
        let c0 = if self.ime_scheduled { Cpu { ime_scheduled: false, ime: true, ..self } } else { self };
        if c0.halted && m.pending() == 0 {
            (c0, m, 4)
        } else {
            let c1 = Cpu { halted: false, ..c0 };
            let (c2, op) = c1.fetch_spec(m);
            let c3 = if c2.halt_bug {
                Cpu { halt_bug: false, pc: u16_specs::wrapping_sub(c2.pc, 1), ..c2 }
            } else {
                c2
            };
            let (c4, m4, cycles) = c3.exec_spec(m, op);
            let (c5, m5, isr) = c4.interrupt_spec(m4);
            (c5, m5, (cycles + isr) as u32)
        }
    }
}

/// Facts about the fields an opcode byte decodes into.
proof fn lemma_decode(op: u8)
    by (bit_vector)
    ensures
        op >> 6u8 <= 3,
        (op >> 3u8) & 7 <= 7,
        op & 7 <= 7,
        ((op >> 3u8) & 7) >> 1u8 <= 3,
        ((op >> 3u8) & 7) & 1 <= 1,
{
}

impl Cpu {
    fn imm8(&mut self, mmu: &Mmu) -> (v: u8)
        requires
            mmu.wf(),
        ensures
            (*final(self), v) == old(self).fetch_spec(mmu@),
    {
        let v = mmu.read(self.pc);
        self.pc = self.pc.wrapping_add(1);
        v
    }

    fn imm16(&mut self, mmu: &Mmu) -> (v: u16)
        requires
            mmu.wf(),
        ensures
            (*final(self), v) == old(self).fetch16_spec(mmu@),
    {
        let lo = self.imm8(mmu) as u16;
        let hi = self.imm8(mmu) as u16;
        (hi << 8) | lo
    }

    fn get_r8(&self, mmu: &Mmu, idx: u8) -> (v: u8)
        requires
            mmu.wf(),
            idx <= 7,
        ensures
            v == self.r8_spec(mmu@, idx),
    {
        match idx {
            0 => self.b,
            1 => self.c,
            2 => self.d,
            3 => self.e,
            4 => self.h,
            5 => self.l,
            6 => mmu.read(self.hl()),
            _ => self.a,
        }
    }

    fn set_r8(&mut self, mmu: &mut Mmu, idx: u8, v: u8)
        requires
            old(mmu).wf(),
            idx <= 7,
        ensures
            final(mmu).ppu.dot == old(mmu).ppu.dot,
            final(mmu).wf(),
            (*final(self), final(mmu)@) == old(self).with_r8(old(mmu)@, idx, v),
    {
        match idx {
            0 => self.b = v,
            1 => self.c = v,
            2 => self.d = v,
            3 => self.e = v,
            4 => self.h = v,
            5 => self.l = v,
            6 => mmu.write(self.hl(), v),
            _ => self.a = v,
        }
    }

    fn push(&mut self, mmu: &mut Mmu, v: u16)
        requires
            old(mmu).wf(),
        ensures
            final(mmu).ppu.dot == old(mmu).ppu.dot,
            final(mmu).wf(),
            (*final(self), final(mmu)@) == old(self).push_spec(old(mmu)@, v),
    {
        self.sp = self.sp.wrapping_sub(1);
        mmu.write(self.sp, (v >> 8) as u8);
        self.sp = self.sp.wrapping_sub(1);
        mmu.write(self.sp, v as u8);
    }

    fn pop(&mut self, mmu: &Mmu) -> (v: u16)
        requires
            mmu.wf(),
        ensures
            (*final(self), v) == old(self).pop_spec(mmu@),
    {
        let lo = mmu.read(self.sp) as u16;
        self.sp = self.sp.wrapping_add(1);
        let hi = mmu.read(self.sp) as u16;
        self.sp = self.sp.wrapping_add(1);
        (hi << 8) | lo
    }

    /// Executes one instruction (or services HALT/interrupt) and returns elapsed T-cycles.
    pub fn step(&mut self, mmu: &mut Mmu) -> (cycles: u32)
        requires
            old(mmu).wf(),
        ensures
            cycles >= 4,
            final(mmu).ppu.dot == old(mmu).ppu.dot,
            final(mmu).wf(),
            (*final(self), final(mmu)@, cycles) == old(self).step_spec(old(mmu)@),
            cycles <= 44,
    {
        // EI's effect takes hold before the instruction following EI executes,
        // so a HALT immediately after EI must see the updated IME when
        // deciding whether the halt-bug applies.
        if self.ime_scheduled {
            self.ime_scheduled = false;
            self.ime = true;
        }
        if self.halted {
            if mmu.if_flag & mmu.ie_flag & 0x1F != 0 {
                self.halted = false;
            } else {
                return 4;
            }
        }
        let op = self.imm8(mmu);
        if self.halt_bug {
            self.halt_bug = false;
            self.pc = self.pc.wrapping_sub(1);
        }
        let cycles = self.execute(mmu, op);
        let isr_cycles = self.handle_interrupts(mmu);
        cycles + isr_cycles
    }

    fn handle_interrupts(&mut self, mmu: &mut Mmu) -> (cycles: u32)
        requires
            old(mmu).wf(),
        ensures
            final(mmu).ppu.dot == old(mmu).ppu.dot,
            final(mmu).wf(),
            (*final(self), final(mmu)@, cycles) == old(self).interrupt_spec(old(mmu)@),
            cycles <= 20,
    {
        let pending = mmu.if_flag & mmu.ie_flag & 0x1F;
        if pending == 0 {
            return 0;
        }
        if !self.ime {
            return 0;
        }
        self.ime = false;
        self.halted = false;
        let bit: u8 = if pending & 0x01 != 0 {
            0
        } else if pending & 0x02 != 0 {
            1
        } else if pending & 0x04 != 0 {
            2
        } else if pending & 0x08 != 0 {
            3
        } else {
            4
        };
        mmu.if_flag &= !(1u8 << bit);
        let vector = 0x40 + (bit as u16) * 8;
        let pc = self.pc;
        self.push(mmu, pc);
        self.pc = vector;
        20
    }

    fn execute(&mut self, mmu: &mut Mmu, op: u8) -> (cycles: u32)
        requires
            old(mmu).wf(),
        ensures
            cycles >= 4,
            final(mmu).ppu.dot == old(mmu).ppu.dot,
            final(mmu).wf(),
            (*final(self), final(mmu)@, cycles) == old(self).exec_spec(old(mmu)@, op),
            cycles <= 24,
    {
        let x = op >> 6;
        let y = (op >> 3) & 7;
        let z = op & 7;
        let p = y >> 1;
        let q = y & 1;
        proof {
            lemma_decode(op);
        }
        if x == 0 {
            self.execute_x0(mmu, y, z, p, q)
        } else if x == 1 {
            if z == 6 && y == 6 {
                // HALT
                if !self.ime && (mmu.if_flag & mmu.ie_flag & 0x1F != 0) {
                    self.halt_bug = true;
                } else {
                    self.halted = true;
                }
                4
            } else {
                let v = self.get_r8(mmu, z);
                self.set_r8(mmu, y, v);
                if y == 6 || z == 6 { 8 } else { 4 }
            }
        } else if x == 2 {
            let v = self.get_r8(mmu, z);
            self.alu(y, v);
            if z == 6 { 8 } else { 4 }
        } else if op == 0xCB {
            self.execute_cb(mmu)
        } else {
            self.execute_x3(mmu, op, y, p)
        }
    }

    fn execute_x0(&mut self, mmu: &mut Mmu, y: u8, z: u8, p: u8, q: u8) -> (cycles: u32)
        requires
            old(mmu).wf(),
            y <= 7,
            z <= 7,
            p <= 3,
            q <= 1,
        ensures
            cycles >= 4,
            final(mmu).ppu.dot == old(mmu).ppu.dot,
            final(mmu).wf(),
            (*final(self), final(mmu)@, cycles) == old(self).exec_x0(old(mmu)@, y, z, p, q),
            cycles <= 20,
    {
        if z == 0 {
            self.execute_x0_z0(mmu, y)
        } else if z == 1 {
            if q == 0 {
                let nn = self.imm16(mmu);
                self.set_rp(p, nn);
                12
            } else {
                let hl = self.hl();
                let rp = self.get_rp(p);
                proof {
                    lemma_word_masks(hl);
                    lemma_word_masks(rp);
                }
                let r = hl.wrapping_add(rp);
                let c = hl as u32 + rp as u32 > 0xFFFF;
                let h = (hl & 0xFFF) + (rp & 0xFFF) > 0xFFF;
                self.set_hl(r);
                self.set_flag(FLAG_N, false);
                self.set_flag(FLAG_H, h);
                self.set_flag(FLAG_C, c);
                8
            }
        } else if z == 2 {
            if q == 0 {
                if p == 0 {
                    mmu.write(self.bc(), self.a);
                } else if p == 1 {
                    mmu.write(self.de(), self.a);
                } else if p == 2 {
                    let hl = self.hl();
                    mmu.write(hl, self.a);
                    self.set_hl(hl.wrapping_add(1));
                } else {
                    let hl = self.hl();
                    mmu.write(hl, self.a);
                    self.set_hl(hl.wrapping_sub(1));
                }
            } else {
                if p == 0 {
                    self.a = mmu.read(self.bc());
                } else if p == 1 {
                    self.a = mmu.read(self.de());
                } else if p == 2 {
                    let hl = self.hl();
                    self.a = mmu.read(hl);
                    self.set_hl(hl.wrapping_add(1));
                } else {
                    let hl = self.hl();
                    self.a = mmu.read(hl);
                    self.set_hl(hl.wrapping_sub(1));
                }
            }
            8
        } else if z == 3 {
            let rp = self.get_rp(p);
            if q == 0 {
                self.set_rp(p, rp.wrapping_add(1));
            } else {
                self.set_rp(p, rp.wrapping_sub(1));
            }
            8
        } else if z == 4 {
            let v = self.get_r8(mmu, y);
            let r = self.inc8(v);
            self.set_r8(mmu, y, r);
            if y == 6 { 12 } else { 4 }
        } else if z == 5 {
            let v = self.get_r8(mmu, y);
            let r = self.dec8(v);
            self.set_r8(mmu, y, r);
            if y == 6 { 12 } else { 4 }
        } else if z == 6 {
            let n = self.imm8(mmu);
            self.set_r8(mmu, y, n);
            if y == 6 { 12 } else { 8 }
        } else {
            self.execute_x0_z7(y);
            4
        }
    }

    fn execute_x0_z0(&mut self, mmu: &mut Mmu, y: u8) -> (cycles: u32)
        requires
            old(mmu).wf(),
            y <= 7,
        ensures
            cycles >= 4,
            final(mmu).ppu.dot == old(mmu).ppu.dot,
            final(mmu).wf(),
            (*final(self), final(mmu)@, cycles) == old(self).exec_x0_z0(old(mmu)@, y),
            cycles <= 20,
    {
        if y == 0 {
            4
        } else if y == 1 {
            // LD (nn), SP
            let addr = self.imm16(mmu);
            mmu.write(addr, self.sp as u8);
            mmu.write(addr.wrapping_add(1), (self.sp >> 8) as u8);
            20
        } else if y == 2 {
            // STOP
            self.imm8(mmu);
            self.stopped = true;
            4
        } else if y == 3 {
            // JR d
            let d = self.imm8(mmu);
            proof {
                lemma_sext16(d);
            }
            self.pc = self.pc.wrapping_add(d as i8 as i16 as u16);
            12
        } else {
            let d = self.imm8(mmu);
            proof {
                lemma_sext16(d);
            }
            if self.cond(y - 4) {
                self.pc = self.pc.wrapping_add(d as i8 as i16 as u16);
                12
            } else {
                8
            }
        }
    }

    fn execute_x0_z7(&mut self, y: u8)
        requires
            y <= 7,
        ensures
            *final(self) == old(self).exec_x0_z7(y),
    {
        if y == 0 {
            // RLCA
            let r = self.rlc(self.a);
            self.a = r;
            self.set_flag(FLAG_Z, false);
        } else if y == 1 {
            let r = self.rrc(self.a);
            self.a = r;
            self.set_flag(FLAG_Z, false);
        } else if y == 2 {
            let r = self.rl(self.a);
            self.a = r;
            self.set_flag(FLAG_Z, false);
        } else if y == 3 {
            let r = self.rr(self.a);
            self.a = r;
            self.set_flag(FLAG_Z, false);
        } else if y == 4 {
            self.daa();
        } else if y == 5 {
            // CPL
            self.a = !self.a;
            self.set_flag(FLAG_N, true);
            self.set_flag(FLAG_H, true);
        } else if y == 6 {
            // SCF
            self.set_flag(FLAG_N, false);
            self.set_flag(FLAG_H, false);
            self.set_flag(FLAG_C, true);
        } else {
            // CCF
            self.set_flag(FLAG_N, false);
            self.set_flag(FLAG_H, false);
            let c = self.flag(FLAG_C);
            self.set_flag(FLAG_C, !c);
        }
    }

    fn execute_x3(&mut self, mmu: &mut Mmu, op: u8, y: u8, p: u8) -> (cycles: u32)
        requires
            old(mmu).wf(),
            op >> 6u8 == 3,
            op != 0xCB,
            y == (op >> 3u8) & 7,
            p == y >> 1u8,
            y <= 7,
            p <= 3,
        ensures
            cycles >= 4,
            final(mmu).ppu.dot == old(mmu).ppu.dot,
            final(mmu).wf(),
            (*final(self), final(mmu)@, cycles) == old(self).exec_x3(old(mmu)@, op, y, p),
            cycles <= 24,
    {
        if op == 0xC0 || op == 0xC8 || op == 0xD0 || op == 0xD8 {
            if self.cond(y) {
                self.pc = self.pop(mmu);
                20
            } else {
                8
            }
        } else if op == 0xC9 {
            self.pc = self.pop(mmu);
            16
        } else if op == 0xD9 {
            self.pc = self.pop(mmu);
            self.ime = true;
            16
        } else if op == 0xC1 || op == 0xD1 || op == 0xE1 || op == 0xF1 {
            let v = self.pop(mmu);
            self.set_rp2(p, v);
            12
        } else if op == 0xC5 || op == 0xD5 || op == 0xE5 || op == 0xF5 {
            let v = self.get_rp2(p);
            self.push(mmu, v);
            16
        } else if op == 0xC2 || op == 0xCA || op == 0xD2 || op == 0xDA {
            let nn = self.imm16(mmu);
            if self.cond(y) {
                self.pc = nn;
                16
            } else {
                12
            }
        } else if op == 0xC3 {
            self.pc = self.imm16(mmu);
            16
        } else if op == 0xE9 {
            self.pc = self.hl();
            4
        } else if op == 0xC4 || op == 0xCC || op == 0xD4 || op == 0xDC {
            let nn = self.imm16(mmu);
            if self.cond(y) {
                let pc = self.pc;
                self.push(mmu, pc);
                self.pc = nn;
                24
            } else {
                12
            }
        } else if op == 0xCD {
            let nn = self.imm16(mmu);
            let pc = self.pc;
            self.push(mmu, pc);
            self.pc = nn;
            24
        } else if op == 0xC6 || op == 0xCE || op == 0xD6 || op == 0xDE || op == 0xE6 || op == 0xEE
            || op == 0xF6 || op == 0xFE {
            let n = self.imm8(mmu);
            self.alu(y, n);
            8
        } else if op == 0xC7 || op == 0xCF || op == 0xD7 || op == 0xDF || op == 0xE7 || op == 0xEF
            || op == 0xF7 || op == 0xFF {
            let pc = self.pc;
            self.push(mmu, pc);
            self.pc = (y as u16) * 8;
            16
        } else if op == 0xE0 {
            let n = self.imm8(mmu);
            mmu.write(0xFF00 + n as u16, self.a);
            12
        } else if op == 0xF0 {
            let n = self.imm8(mmu);
            self.a = mmu.read(0xFF00 + n as u16);
            12
        } else if op == 0xE2 {
            mmu.write(0xFF00 + self.c as u16, self.a);
            8
        } else if op == 0xF2 {
            self.a = mmu.read(0xFF00 + self.c as u16);
            8
        } else if op == 0xEA {
            let nn = self.imm16(mmu);
            mmu.write(nn, self.a);
            16
        } else if op == 0xFA {
            let nn = self.imm16(mmu);
            self.a = mmu.read(nn);
            16
        } else if op == 0xE8 {
            let dd = self.imm8(mmu);
            proof {
                lemma_sext16(dd);
            }
            let d = dd as i8 as i16 as u16;
            let sp = self.sp;
            proof {
                lemma_word_masks(sp);
                lemma_word_masks(d);
            }
            let r = sp.wrapping_add(d);
            self.set_flag(FLAG_Z, false);
            self.set_flag(FLAG_N, false);
            self.set_flag(FLAG_H, (sp & 0xF) + (d & 0xF) > 0xF);
            self.set_flag(FLAG_C, (sp & 0xFF) + (d & 0xFF) > 0xFF);
            self.sp = r;
            16
        } else if op == 0xF8 {
            let dd = self.imm8(mmu);
            proof {
                lemma_sext16(dd);
            }
            let d = dd as i8 as i16 as u16;
            let sp = self.sp;
            proof {
                lemma_word_masks(sp);
                lemma_word_masks(d);
            }
            let r = sp.wrapping_add(d);
            self.set_flag(FLAG_Z, false);
            self.set_flag(FLAG_N, false);
            self.set_flag(FLAG_H, (sp & 0xF) + (d & 0xF) > 0xF);
            self.set_flag(FLAG_C, (sp & 0xFF) + (d & 0xFF) > 0xFF);
            self.set_hl(r);
            12
        } else if op == 0xF9 {
            self.sp = self.hl();
            8
        } else if op == 0xF3 {
            self.ime = false;
            self.ime_scheduled = false;
            4
        } else if op == 0xFB {
            self.ime_scheduled = true;
            4
        } else {
            // Illegal opcode (D3,DB,DD,E3,E4,EB,EC,ED,F4,FC,FD): treat as NOP to stay resilient.
            4
        }
    }

    fn execute_cb(&mut self, mmu: &mut Mmu) -> (cycles: u32)
        requires
            old(mmu).wf(),
        ensures
            cycles >= 4,
            final(mmu).ppu.dot == old(mmu).ppu.dot,
            final(mmu).wf(),
            (*final(self), final(mmu)@, cycles) == old(self).exec_cb(old(mmu)@),
            cycles <= 16,
    {
        let op = self.imm8(mmu);
        let x = op >> 6;
        let y = (op >> 3) & 7;
        let z = op & 7;
        proof {
            lemma_decode(op);
        }
        let v = self.get_r8(mmu, z);
        let cycles_base: u32 = if z == 6 { 16 } else { 8 };
        if x == 0 {
            let r = if y == 0 {
                self.rlc(v)
            } else if y == 1 {
                self.rrc(v)
            } else if y == 2 {
                self.rl(v)
            } else if y == 3 {
                self.rr(v)
            } else if y == 4 {
                self.sla(v)
            } else if y == 5 {
                self.sra(v)
            } else if y == 6 {
                self.swap(v)
            } else {
                self.srl(v)
            };
            self.set_r8(mmu, z, r);
            cycles_base
        } else if x == 1 {
            // BIT y, r[z]
            let bit = v & (1 << y) == 0;
            self.set_flag(FLAG_Z, bit);
            self.set_flag(FLAG_N, false);
            self.set_flag(FLAG_H, true);
            if z == 6 { 12 } else { 8 }
        } else if x == 2 {
            // RES y, r[z]
            let r = v & !(1 << y);
            self.set_r8(mmu, z, r);
            cycles_base
        } else {
            // SET y, r[z]
            let r = v | (1 << y);
            self.set_r8(mmu, z, r);
            cycles_base
        }
    }
}

/// Writing a register pair and reading it back gives the value written
/// (for AF, with the low nibble of F forced to zero).
pub proof fn law_register_pairs(c: Cpu, v: u16)
    ensures
        c.with_bc(v).bc_spec() == v,
        c.with_de(v).de_spec() == v,
        c.with_hl(v).hl_spec() == v,
        c.with_af(v).af_spec() == v & 0xFFF0,
{
    assert(word(hi_byte(v), lo_byte(v)) == v) by (bit_vector);
    assert(word(hi_byte(v), ((v & 0xF0) as u8) & 0xF0) == v & 0xFFF0) by (bit_vector);
}

/// Whether the two stack bytes below SP are plain RAM, distinct from each other.
pub open spec fn stack_in_ram(sp: u16) -> bool {
    is_ram(u16_specs::wrapping_sub(sp, 1)) && is_ram(u16_specs::wrapping_sub(sp, 2))
        && ram_cell(u16_specs::wrapping_sub(sp, 1)) != ram_cell(u16_specs::wrapping_sub(sp, 2))
}

/// POP after PUSH returns the pushed value and restores SP, when the stack is in RAM.
pub proof fn law_push_pop(c: Cpu, m: MmuModel, v: u16)
    requires
        m.wf(),
        stack_in_ram(c.sp),
    ensures
        ({
            let (c1, m1) = c.push_spec(m, v);
            let (c2, r) = c1.pop_spec(m1);
            &&& r == v
            &&& c2.sp == c.sp
            &&& c2 == (Cpu { sp: c.sp, ..c1 })
        }),
{
    let sp1 = u16_specs::wrapping_sub(c.sp, 1);
    let sp2 = u16_specs::wrapping_sub(sp1, 1);
    assert(sp2 == u16_specs::wrapping_sub(c.sp, 2));
    let m1 = m.write(sp1, hi_byte(v));
    law_ram_read_after_write(m, sp1, hi_byte(v));
    law_ram_read_after_write(m1, sp2, lo_byte(v));
    law_ram_write_frame(m1, sp2, sp1, lo_byte(v));
    assert(word(hi_byte(v), lo_byte(v)) == v) by (bit_vector);
}

/// CP computes the flags of SUB but leaves A unchanged.
pub proof fn law_cp_is_sub_without_store(c: Cpu, v: u8)
    ensures
        c.alu_spec(7, v) == (Cpu { a: c.a, ..c.alu_spec(2, v) }),
{
}

/// XOR A with itself clears A and sets only the Z flag.
pub proof fn law_xor_self(c: Cpu)
    ensures
        c.alu_spec(5, c.a).a == 0,
        c.alu_spec(5, c.a).f & 0xF0 == FLAG_Z,
{
    let (a, f) = (c.a, c.f);
    assert(a ^ a == 0 && ((((f | 0x80) & !0x40u8) & !0x20u8) & !0x10u8) & 0xF0 == 0x80) by (bit_vector);
}

/// SWAP twice restores the value; RRC undoes RLC and RLC undoes RRC.
pub proof fn law_shift_inverses(c: Cpu, v: u8)
    ensures
        c.swap_spec(c.swap_spec(v).1).1 == v,
        c.rrc_spec(c.rlc_spec(v).1).1 == v,
        c.rlc_spec(c.rrc_spec(v).1).1 == v,
{
    assert(((((v << 4u8) | (v >> 4u8)) << 4u8) | (((v << 4u8) | (v >> 4u8)) >> 4u8)) == v
        && ((((v << 1u8) | (v >> 7u8)) >> 1u8) | (((v << 1u8) | (v >> 7u8)) << 7u8)) == v
        && ((((v >> 1u8) | (v << 7u8)) << 1u8) | (((v >> 1u8) | (v << 7u8)) >> 7u8)) == v) by (bit_vector);
}

/// Interrupt dispatch with IME set and an interrupt pending (stack in RAM):
/// jumps to the pending source's vector, disables IME, leaves HALT,
/// acknowledges exactly that source in IF, and pushes the old PC.
pub proof fn law_interrupt_dispatch(c: Cpu, m: MmuModel)
    requires
        m.wf(),
        c.ime,
        m.pending() != 0,
        stack_in_ram(c.sp),
    ensures
        ({
            let bit = interrupt_bit(m.pending());
            let (c1, m1, cycles) = c.interrupt_spec(m);
            &&& c1.pc == 0x40 + 8 * bit
            &&& !c1.ime
            &&& !c1.halted
            &&& cycles == 20
            &&& m1.if_flag == m.if_flag & !(1u8 << bit)
            &&& c1.pop_spec(m1).1 == c.pc
        }),
{
    let bit = interrupt_bit(m.pending());
    let m0 = MmuModel { if_flag: m.if_flag & !(1u8 << bit), ..m };
    let c0 = Cpu { ime: false, halted: false, ..c };
    law_push_pop(c0, m0, c.pc);
    let sp1 = u16_specs::wrapping_sub(c.sp, 1);
    let sp2 = u16_specs::wrapping_sub(sp1, 1);
    let m1 = m0.write(sp1, hi_byte(c.pc));
    law_ram_read_after_write(m0, sp1, hi_byte(c.pc));
    law_ram_write_frame(m0, sp1, 0xFF0F, hi_byte(c.pc));
    law_ram_write_frame(m1, sp2, 0xFF0F, lo_byte(c.pc));
}

/// A halted CPU with no interrupt pending idles: 4 T-cycles, nothing else
/// changes but a pending EI taking effect.
pub proof fn law_halt_idles(c: Cpu, m: MmuModel)
    requires
        c.halted,
        m.pending() == 0,
    ensures
        c.step_spec(m) == (
            if c.ime_scheduled { Cpu { ime_scheduled: false, ime: true, ..c } } else { c },
            m,
            4u32,
        ),
{
}

/// A halted CPU with an interrupt pending wakes up and runs again.
pub proof fn law_halt_wakes(c: Cpu, m: MmuModel)
    requires
        c.halted,
        m.pending() != 0,
        !c.halt_bug,
        !c.ime && !c.ime_scheduled,
    ensures
        c.step_spec(m) == ({
            let (c2, op) = Cpu { halted: false, ..c }.fetch_spec(m);
            let (c4, m4, cycles) = c2.exec_spec(m, op);
            let (c5, m5, isr) = c4.interrupt_spec(m4);
            (c5, m5, (cycles + isr) as u32)
        }),
{
}

/// Whether `m` is one of the four flag bits of F.
pub open spec fn is_flag_mask(m: u8) -> bool {
    m == FLAG_Z || m == FLAG_N || m == FLAG_H || m == FLAG_C
}

proof fn lemma_flag_bits(f: u8, m: u8, m2: u8, v: u16)
    by (bit_vector)
    requires
        m == 0x80 || m == 0x40 || m == 0x20 || m == 0x10,
        m2 == 0x80 || m2 == 0x40 || m2 == 0x20 || m2 == 0x10,
    ensures
        ((f | m) & m2 != 0) == (m2 == m || f & m2 != 0),
        ((f & !m) & m2 != 0) == (m2 != m && f & m2 != 0),
        f & 0x0F == 0 ==> (f | m) & 0x0F == 0 && (f & !m) & 0x0F == 0,
        ((v & 0xF0) as u8) & 0x0F == 0,
{
}

/// Setting or clearing one flag sets that flag as asked and leaves the
/// other flags as they were.
pub broadcast proof fn lemma_with_flag(c: Cpu, m: u8, on: bool, m2: u8)
    requires
        is_flag_mask(m),
        is_flag_mask(m2),
    ensures
        #[trigger] c.with_flag(m, on).flag_spec(m2) == if m2 == m { on } else { c.flag_spec(m2) },
{
    lemma_flag_bits(c.f, m, m2, 0);
}

/// Setting or clearing one flag keeps a clear low nibble of F clear.
pub broadcast proof fn lemma_with_flag_low_nibble(c: Cpu, m: u8, on: bool)
    requires
        is_flag_mask(m),
        c.f & 0x0F == 0,
    ensures
        (#[trigger] c.with_flag(m, on)).f & 0x0F == 0,
{
    lemma_flag_bits(c.f, m, m, 0);
}

/// POP AF leaves the low nibble of F clear.
pub broadcast proof fn lemma_with_af(c: Cpu, v: u16)
    ensures
        #[trigger] c.with_af(v).f & 0x0F == 0,
{
    lemma_flag_bits(0, FLAG_Z, FLAG_Z, v);
}

/// Whether a byte holds two decimal digits (packed BCD).
pub open spec fn is_bcd(x: u8) -> bool {
    x & 0x0F <= 9 && x >> 4u8 <= 9
}

/// The number 0..=99 a packed BCD byte stands for.
pub open spec fn bcd_value(x: u8) -> int {
    (x >> 4u8) * 10 + (x & 0x0F)
}

/// The packed BCD byte of a number 0..=99.
pub open spec fn to_bcd(v: int) -> u8 {
    ((v / 10) * 16 + v % 10) as u8
}

proof fn lemma_daa_add_arith(x: u8, y: u8)
    by (bit_vector)
    requires
        x & 0x0F <= 9,
        x >> 4u8 <= 9,
        y & 0x0F <= 9,
        y >> 4u8 <= 9,
    ensures
        ({
            let dx: u16 = (((x >> 4u8) as u16) * 10 + ((x & 0x0F) as u16)) as u16;
            let dy: u16 = (((y >> 4u8) as u16) * 10 + ((y & 0x0F) as u16)) as u16;
            let s: u16 = (dx + dy) as u16;
            let a: u8 = if x + y > 255 { (x + y - 256) as u8 } else { (x + y) as u8 };
            let h = (x & 0xF) + (y & 0xF) > 0xF;
            let cy = x + y > 0xFF;
            let low: u8 = if h || (a & 0xF) > 9 { 0x06 } else { 0 };
            let high = cy || a > 0x99;
            let adjust: u8 = low | (if high { 0x60u8 } else { 0 });
            let r: u8 = if a + adjust > 255 { (a + adjust - 256) as u8 } else { (a + adjust) as u8 };
            &&& r == (((s % 100) / 10) * 16 + (s % 100) % 10) as u8
            &&& (cy || high) == (s >= 100)
        }),
{
}

proof fn lemma_daa_sub_arith(x: u8, y: u8)
    by (bit_vector)
    requires
        x & 0x0F <= 9,
        x >> 4u8 <= 9,
        y & 0x0F <= 9,
        y >> 4u8 <= 9,
    ensures
        ({
            let dx: u16 = (((x >> 4u8) as u16) * 10 + ((x & 0x0F) as u16)) as u16;
            let dy: u16 = (((y >> 4u8) as u16) * 10 + ((y & 0x0F) as u16)) as u16;
            let d: u16 = (dx + 100 - dy) as u16;
            let a: u8 = if x < y { (x - y + 256) as u8 } else { (x - y) as u8 };
            let h = (x & 0xF) < (y & 0xF);
            let cy = x < y;
            let low: u8 = if h { 0x06 } else { 0 };
            let adjust: u8 = low | (if cy { 0x60u8 } else { 0 });
            let r: u8 = if a < adjust { (a - adjust + 256) as u8 } else { (a - adjust) as u8 };
            &&& r == (((d % 100) / 10) * 16 + (d % 100) % 10) as u8
            &&& cy == (dx < dy)
        }),
{
}

/// DAA after adding two packed BCD bytes gives the BCD of the decimal sum
/// mod 100, with C set exactly when the sum reached 100, Z when the result
/// is 0, and N and H clear.
pub proof fn law_daa_after_add(c: Cpu, y: u8)
    requires
        is_bcd(c.a),
        is_bcd(y),
    ensures
        ({
            let s = bcd_value(c.a) + bcd_value(y);
            let d = c.alu_spec(0, y).daa_spec();
            &&& d.a == to_bcd(s % 100)
            &&& d.flag_spec(FLAG_C) == (s >= 100)
            &&& d.flag_spec(FLAG_Z) == (s % 100 == 0)
            &&& !d.flag_spec(FLAG_N)
            &&& !d.flag_spec(FLAG_H)
        }),
{
    broadcast use lemma_with_flag;
    lemma_daa_add_arith(c.a, y);
    let c1 = c.alu_spec(0, y);
    assert(!c1.flag_spec(FLAG_N));
    assert(c1.flag_spec(FLAG_H) == ((c.a & 0xF) + (y & 0xF) > 0xF));
    assert(c1.flag_spec(FLAG_C) == (c.a + y > 0xFF));
    let s = bcd_value(c.a) + bcd_value(y);
    assert(0 <= s % 100 < 100);
    assert(to_bcd(s % 100) == 0 <==> s % 100 == 0);
}

/// DAA after subtracting two packed BCD bytes gives the BCD of the decimal
/// difference mod 100, with C set exactly on a borrow, N still set and H clear.
pub proof fn law_daa_after_sub(c: Cpu, y: u8)
    requires
        is_bcd(c.a),
        is_bcd(y),
    ensures
        ({
            let dd = bcd_value(c.a) + 100 - bcd_value(y);
            let d = c.alu_spec(2, y).daa_spec();
            &&& d.a == to_bcd(dd % 100)
            &&& d.flag_spec(FLAG_C) == (bcd_value(c.a) < bcd_value(y))
            &&& d.flag_spec(FLAG_Z) == (dd % 100 == 0)
            &&& d.flag_spec(FLAG_N)
            &&& !d.flag_spec(FLAG_H)
        }),
{
    broadcast use lemma_with_flag;
    lemma_daa_sub_arith(c.a, y);
    let c1 = c.alu_spec(2, y);
    assert(c1.flag_spec(FLAG_N));
    assert(c1.flag_spec(FLAG_H) == ((c.a & 0xF) < (y & 0xF)));
    assert(c1.flag_spec(FLAG_C) == (c.a < y));
    let dd = bcd_value(c.a) + 100 - bcd_value(y);
    assert(0 <= dd % 100 < 100);
    assert(to_bcd(dd % 100) == 0 <==> dd % 100 == 0);
}

/// RR undoes RL, and RL undoes RR, restoring both the value and the carry.
pub proof fn law_rotate_through_carry_inverse(c: Cpu, v: u8)
    ensures
        ({
            let (c1, r) = c.rl_spec(v);
            let (c2, back) = c1.rr_spec(r);
            back == v && c2.flag_spec(FLAG_C) == c.flag_spec(FLAG_C)
        }),
        ({
            let (c1, r) = c.rr_spec(v);
            let (c2, back) = c1.rl_spec(r);
            back == v && c2.flag_spec(FLAG_C) == c.flag_spec(FLAG_C)
        }),
{
    broadcast use lemma_with_flag;
    let b: u8 = if c.flag_spec(FLAG_C) { 1 } else { 0 };
    let t: u8 = if c.flag_spec(FLAG_C) { 0x80 } else { 0 };
    assert((b == 0 || b == 1) && (t == 0 || t == 0x80) ==>
        (((v << 1u8) | b) >> 1u8) | (if v & 0x80 != 0 { 0x80u8 } else { 0 }) == v
        && ((((v << 1u8) | b) & 0x01 != 0) == (b == 1))
        && (((v >> 1u8) | t) << 1u8) | (if v & 0x01 != 0 { 1u8 } else { 0 }) == v
        && ((((v >> 1u8) | t) & 0x80 != 0) == (t == 0x80))) by (bit_vector);
}

/// One step keeps the unused low nibble of F clear and takes a whole number
/// of machine cycles (4 T-cycles each): at least one, at most 11.
#[verifier::spinoff_prover]
#[verifier::rlimit(60)]
pub proof fn law_step_flags_and_cycles(c: Cpu, m: MmuModel)
    requires
        c.f & 0x0F == 0,
    ensures
        c.step_spec(m).0.f & 0x0F == 0,
        c.step_spec(m).2 % 4 == 0,
        4 <= c.step_spec(m).2 <= 44,
{
    let c0 = if c.ime_scheduled { Cpu { ime_scheduled: false, ime: true, ..c } } else { c };
    if !(c0.halted && m.pending() == 0) {
        let c1 = Cpu { halted: false, ..c0 };
        let (c2, op) = c1.fetch_spec(m);
        let c3 = if c2.halt_bug {
            Cpu { halt_bug: false, pc: u16_specs::wrapping_sub(c2.pc, 1), ..c2 }
        } else {
            c2
        };
        lemma_run_fetched(c3, m, op);
    }
}

proof fn lemma_run_fetched(c: Cpu, m: MmuModel, op: u8)
    requires
        c.f & 0x0F == 0,
    ensures
        ({
            let (c4, m4, cycles) = c.exec_spec(m, op);
            let (c5, m5, isr) = c4.interrupt_spec(m4);
            &&& c5.f & 0x0F == 0
            &&& (cycles + isr) as u32 % 4 == 0
            &&& 4 <= (cycles + isr) as u32 <= 44
        }),
{
    lemma_exec_flags_and_cycles(c, m, op);
    let r = c.exec_spec(m, op);
    lemma_interrupt_after(r.0, r.1, r.2);
}

proof fn lemma_interrupt_after(c: Cpu, m: MmuModel, cycles: u32)
    requires
        c.f & 0x0F == 0,
        cycles % 4 == 0,
        4 <= cycles <= 24,
    ensures
        ({
            let (c5, m5, isr) = c.interrupt_spec(m);
            &&& c5.f & 0x0F == 0
            &&& (cycles + isr) as u32 % 4 == 0
            &&& 4 <= (cycles + isr) as u32 <= 44
        }),
{
    lemma_interrupt_keeps_flags(c, m);
}

proof fn lemma_interrupt_keeps_flags(c: Cpu, m: MmuModel)
    ensures
        c.interrupt_spec(m).0.f == c.f,
        c.interrupt_spec(m).2 == 0 || c.interrupt_spec(m).2 == 20,
{
}

proof fn lemma_alu_keeps_low_nibble(c: Cpu, op: u8, v: u8)
    requires
        c.f & 0x0F == 0,
    ensures
        c.alu_spec(op, v).f & 0x0F == 0,
{
    broadcast use lemma_with_flag_low_nibble;
}

proof fn lemma_shift_keeps_low_nibble(c: Cpu, y: u8, v: u8)
    requires
        c.f & 0x0F == 0,
    ensures
        c.shift_op_spec(y, v).0.f & 0x0F == 0,
{
    broadcast use lemma_with_flag_low_nibble;
}

proof fn lemma_x0_flags_and_cycles(c: Cpu, m: MmuModel, y: u8, z: u8, p: u8, q: u8)
    requires
        c.f & 0x0F == 0,
        y <= 7,
        z <= 7,
    ensures
        c.exec_x0(m, y, z, p, q).0.f & 0x0F == 0,
        c.exec_x0(m, y, z, p, q).2 % 4 == 0,
        4 <= c.exec_x0(m, y, z, p, q).2 <= 20,
{
    broadcast use lemma_with_flag_low_nibble;
    if z == 7 {
        if y <= 3 {
            lemma_shift_keeps_low_nibble(c, y, c.a);
        } else if y == 4 {
            assert(c.daa_spec().f & 0x0F == 0);
        }
    } else if z == 4 || z == 5 {
        let v = c.r8_spec(m, y);
        assert(c.inc8_spec(v).0.f & 0x0F == 0);
        assert(c.dec8_spec(v).0.f & 0x0F == 0);
    }
}

proof fn lemma_x3_flags_and_cycles(c: Cpu, m: MmuModel, op: u8, y: u8, p: u8)
    requires
        c.f & 0x0F == 0,
        op >> 6u8 == 3,
        y == (op >> 3u8) & 7,
    ensures
        c.exec_x3(m, op, y, p).0.f & 0x0F == 0,
        c.exec_x3(m, op, y, p).2 % 4 == 0,
        4 <= c.exec_x3(m, op, y, p).2 <= 24,
{
    broadcast use lemma_with_flag_low_nibble, lemma_with_af;
    let (c1, n) = c.fetch_spec(m);
    lemma_alu_keeps_low_nibble(c1, y, n);
}

proof fn lemma_cb_flags_and_cycles(c: Cpu, m: MmuModel)
    requires
        c.f & 0x0F == 0,
    ensures
        c.exec_cb(m).0.f & 0x0F == 0,
        c.exec_cb(m).2 % 4 == 0,
        4 <= c.exec_cb(m).2 <= 16,
{
    broadcast use lemma_with_flag_low_nibble;
    let (c1, op2) = c.fetch_spec(m);
    lemma_decode(op2);
    let y2 = (op2 >> 3u8) & 7;
    let z2 = op2 & 7;
    lemma_shift_keeps_low_nibble(c1, y2, c1.r8_spec(m, z2));
}

proof fn lemma_exec_flags_and_cycles(c: Cpu, m: MmuModel, op: u8)
    requires
        c.f & 0x0F == 0,
    ensures
        c.exec_spec(m, op).0.f & 0x0F == 0,
        c.exec_spec(m, op).2 % 4 == 0,
        4 <= c.exec_spec(m, op).2 <= 24,
{
    lemma_decode(op);
    let x = op >> 6u8;
    let y = (op >> 3u8) & 7;
    let z = op & 7;
    if x == 0 {
        lemma_x0_flags_and_cycles(c, m, y, z, y >> 1u8, y & 1);
    } else if x == 1 {
    } else if x == 2 {
        lemma_alu_keeps_low_nibble(c, y, c.r8_spec(m, z));
    } else if op == 0xCB {
        lemma_cb_flags_and_cycles(c, m);
    } else {
        lemma_x3_flags_and_cycles(c, m, op, y, y >> 1u8);
    }
}

/// CALL nn then RET, with the stack in RAM, comes back to the instruction
/// after the CALL with SP and every register as before, and leaves the
/// return address on the stack. (`c.pc` is the address of the CALL's
/// operand, the opcode having been fetched.)
pub proof fn law_call_then_ret(c: Cpu, m: MmuModel)
    requires
        m.wf(),
        stack_in_ram(c.sp),
    ensures
        ({
            let (c1, m1, t1) = c.exec_spec(m, 0xCD);
            let (c2, m2, t2) = c1.exec_spec(m1, 0xC9);
            &&& t1 == 24
            &&& c1.pc == c.fetch16_spec(m).1
            &&& c1.sp == u16_specs::wrapping_sub(c.sp, 2)
            &&& t2 == 16
            &&& c2 == (Cpu { pc: u16_specs::wrapping_add(u16_specs::wrapping_add(c.pc, 1), 1), ..c })
            &&& m2 == m1
        }),
{
    lemma_decode(0xCD);
    lemma_decode(0xC9);
    assert((0xCDu8 >> 6u8) == 3 && ((0xCDu8 >> 3u8) & 7) == 1 && ((0xC9u8 >> 3u8) & 7) == 1
        && (0xC9u8 >> 6u8) == 3 && (1u8 >> 1u8) == 0) by (bit_vector);
    let (c1, nn) = c.fetch16_spec(m);
    law_push_pop(c1, m, c1.pc);
}

proof fn lemma_decode_rp_op(p: u8, base: u8)
    by (bit_vector)
    requires
        p <= 3,
        base == 0x03 || base == 0x0B,
    ensures
        ((base | (p << 4u8)) >> 6u8) == 0,
        ((base | (p << 4u8)) & 7) == 3,
        (((base | (p << 4u8)) >> 3u8) & 7) >> 1u8 == p,
        (((base | (p << 4u8)) >> 3u8) & 7) & 1 == (if base == 0x03 { 0u8 } else { 1u8 }),
        (((base | (p << 4u8)) >> 3u8) & 7) <= 7,
{
}

/// INC rp (0x03, 0x13, 0x23, 0x33) adds one to the register pair BC, DE, HL
/// or SP and DEC rp (0x0B, 0x1B, 0x2B, 0x3B) subtracts one, both modulo
/// 0x10000, in 8 T-cycles, leaving A, the flags, memory and the other
/// pairs alone; DEC rp after INC rp gives the pair back.
pub proof fn law_inc_dec_register_pair(c: Cpu, m: MmuModel, p: u8)
    requires
        p <= 3,
    ensures
        ({
            let (ci, mi, ti) = c.exec_spec(m, 0x03u8 | (p << 4u8));
            let (cd, md, td) = c.exec_spec(m, 0x0Bu8 | (p << 4u8));
            &&& ci.rp_spec(p) == (c.rp_spec(p) + 1) % 0x10000
            &&& cd.rp_spec(p) == (c.rp_spec(p) + 0xFFFF) % 0x10000
            &&& ti == 8 && td == 8
            &&& mi == m && md == m
            &&& ci.a == c.a && ci.f == c.f && cd.a == c.a && cd.f == c.f
            &&& forall|q: u8| q <= 3 && q != p ==> ci.rp_spec(q) == c.rp_spec(q) && cd.rp_spec(q) == c.rp_spec(q)
            &&& ci.exec_spec(mi, 0x0Bu8 | (p << 4u8)).0.rp_spec(p) == c.rp_spec(p)
        }),
{
    lemma_decode_rp_op(p, 0x03);
    lemma_decode_rp_op(p, 0x0B);
    let inc = 0x03u8 | (p << 4u8);
    let dec = 0x0Bu8 | (p << 4u8);
    let (ci, mi, ti) = c.exec_spec(m, inc);
    let (cd, md, td) = c.exec_spec(m, dec);
    let vi = u16_specs::wrapping_add(c.rp_spec(p), 1);
    let vd = u16_specs::wrapping_sub(c.rp_spec(p), 1);
    law_register_pairs(c, vi);
    law_register_pairs(c, vd);
    assert(ci == c.with_rp(p, vi));
    assert(cd == c.with_rp(p, vd));
    let back = u16_specs::wrapping_sub(vi, 1);
    law_register_pairs(ci, back);
    assert(ci.exec_spec(mi, dec).0 == ci.with_rp(p, back));
}

} // verus!
