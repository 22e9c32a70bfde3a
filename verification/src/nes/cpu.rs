//! The NES 6502 processor (without decimal mode): registers, the opcode
//! table it implements, and one instruction as a function of the processor
//! and the bus it is connected to.
use vstd::prelude::*;
use crate::cpu::{hi_byte, lo_byte, signed8, wadd16, wadd8, with_bit, with_bit_x, word, lemma_wadd16_twice};

verus! {

pub const FLAG_C: u8 = 0x01;

pub const FLAG_Z: u8 = 0x02;

pub const FLAG_I: u8 = 0x04;

pub const FLAG_D: u8 = 0x08;

pub const FLAG_B: u8 = 0x10;

pub const FLAG_U: u8 = 0x20;

pub const FLAG_V: u8 = 0x40;

pub const FLAG_N: u8 = 0x80;

/// What the processor reads and writes. A read may change the bus (I/O
/// registers), so it gives the new state as well as the byte.
pub trait Bus: View + Sized {
    /// The well-formedness that every read and write keeps.
    spec fn inv(m: Self::V) -> bool;

    /// The bus after a read of `addr` in state `m`, and the byte read.
    spec fn read_spec(m: Self::V, addr: u16) -> (Self::V, u8);

    /// The bus after `value` is written to `addr` in state `m`.
    spec fn write_spec(m: Self::V, addr: u16, value: u8) -> Self::V;

    fn read(&mut self, addr: u16) -> (r: u8)
        requires
            Self::inv(old(self)@),
        ensures
            Self::inv(final(self)@),
            (final(self)@, r) == Self::read_spec(old(self)@, addr),
    ;

    fn write(&mut self, addr: u16, value: u8)
        requires
            Self::inv(old(self)@),
        ensures
            Self::inv(final(self)@),
            final(self)@ == Self::write_spec(old(self)@, addr, value),
    ;
}

pub struct Cpu {
    pub a: u8,
    pub x: u8,
    pub y: u8,
    pub p: u8,
    pub sp: u8,
    pub pc: u16,
}

/// A register named by an instruction.
#[derive(Clone, Copy)]
pub enum Reg {
    A,
    X,
    Y,
    S,
}

/// How an instruction finds its operand.
#[derive(Clone, Copy)]
pub enum Mode {
    Implied,
    Imm,
    Zp,
    ZpX,
    ZpY,
    Abs,
    AbsX,
    AbsY,
    IndX,
    IndY,
}

/// What an instruction does.
#[derive(Clone, Copy)]
pub enum Op {
    Load(Reg),
    Store(Reg),
    Compare(Reg),
    Ora,
    And,
    Eor,
    Adc,
    Sbc,
    Bit,
    Asl,
    Lsr,
    Rol,
    Ror,
    Inc,
    Dec,
    AslA,
    LsrA,
    RolA,
    RorA,
    Transfer(Reg, Reg),
    /// `TXS`: copy X into the stack pointer, flags unchanged.
    Txs,
    IncReg(Reg),
    DecReg(Reg),
    /// Set (`true`) or clear the flags in the mask.
    Flag(u8, bool),
    /// Branch when the flags in the mask are set (`true`) or clear.
    Branch(u8, bool),
    Jsr,
    Rts,
    Rti,
    Jmp,
    JmpInd,
    Pha,
    Pla,
    Php,
    Plp,
    Nop,
}

// ---------------------------------------------------------------------------
// The opcode table
// ---------------------------------------------------------------------------
/// The operation, addressing mode and base cycle count of each implemented
/// opcode.
pub open spec fn decode(op: u8) -> Option<(Op, Mode, u32)> {
    match op {
        0x10 => Some((Op::Branch(FLAG_N, false), Mode::Imm, 2)),
        0x30 => Some((Op::Branch(FLAG_N, true), Mode::Imm, 2)),
        0x50 => Some((Op::Branch(FLAG_V, false), Mode::Imm, 2)),
        0x70 => Some((Op::Branch(FLAG_V, true), Mode::Imm, 2)),
        0x90 => Some((Op::Branch(FLAG_C, false), Mode::Imm, 2)),
        0xB0 => Some((Op::Branch(FLAG_C, true), Mode::Imm, 2)),
        0xD0 => Some((Op::Branch(FLAG_Z, false), Mode::Imm, 2)),
        0xF0 => Some((Op::Branch(FLAG_Z, true), Mode::Imm, 2)),
        0x20 => Some((Op::Jsr, Mode::Abs, 6)),
        0x60 => Some((Op::Rts, Mode::Implied, 6)),
        0x40 => Some((Op::Rti, Mode::Implied, 7)),
        0x4C => Some((Op::Jmp, Mode::Abs, 3)),
        0x6C => Some((Op::JmpInd, Mode::Abs, 5)),
        0xC9 => Some((Op::Compare(Reg::A), Mode::Imm, 2)),
        0xC5 => Some((Op::Compare(Reg::A), Mode::Zp, 3)),
        0xD5 => Some((Op::Compare(Reg::A), Mode::ZpX, 4)),
        0xCD => Some((Op::Compare(Reg::A), Mode::Abs, 4)),
        0xDD => Some((Op::Compare(Reg::A), Mode::AbsX, 4)),
        0xD9 => Some((Op::Compare(Reg::A), Mode::AbsY, 4)),
        0xC1 => Some((Op::Compare(Reg::A), Mode::IndX, 6)),
        0xD1 => Some((Op::Compare(Reg::A), Mode::IndY, 5)),
        0xE0 => Some((Op::Compare(Reg::X), Mode::Imm, 2)),
        0xE4 => Some((Op::Compare(Reg::X), Mode::Zp, 3)),
        0xEC => Some((Op::Compare(Reg::X), Mode::Abs, 4)),
        0xC0 => Some((Op::Compare(Reg::Y), Mode::Imm, 2)),
        0xC4 => Some((Op::Compare(Reg::Y), Mode::Zp, 3)),
        0xCC => Some((Op::Compare(Reg::Y), Mode::Abs, 4)),
        0x18 => Some((Op::Flag(FLAG_C, false), Mode::Implied, 2)),
        0x38 => Some((Op::Flag(FLAG_C, true), Mode::Implied, 2)),
        0xF8 => Some((Op::Flag(FLAG_D, true), Mode::Implied, 2)),
        0x78 => Some((Op::Flag(FLAG_I, true), Mode::Implied, 2)),
        0xD8 => Some((Op::Flag(FLAG_D, false), Mode::Implied, 2)),
        0x58 => Some((Op::Flag(FLAG_I, false), Mode::Implied, 2)),
        0xB8 => Some((Op::Flag(FLAG_V, false), Mode::Implied, 2)),
        0xA0 => Some((Op::Load(Reg::Y), Mode::Imm, 2)),
        0xA4 => Some((Op::Load(Reg::Y), Mode::Zp, 3)),
        0xB4 => Some((Op::Load(Reg::Y), Mode::ZpX, 4)),
        0xAC => Some((Op::Load(Reg::Y), Mode::Abs, 4)),
        0xBC => Some((Op::Load(Reg::Y), Mode::AbsX, 4)),
        0xA2 => Some((Op::Load(Reg::X), Mode::Imm, 2)),
        0xA6 => Some((Op::Load(Reg::X), Mode::Zp, 3)),
        0xB6 => Some((Op::Load(Reg::X), Mode::ZpY, 4)),
        0xAE => Some((Op::Load(Reg::X), Mode::Abs, 4)),
        0xBE => Some((Op::Load(Reg::X), Mode::AbsY, 4)),
        0xA9 => Some((Op::Load(Reg::A), Mode::Imm, 2)),
        0xA5 => Some((Op::Load(Reg::A), Mode::Zp, 3)),
        0xB5 => Some((Op::Load(Reg::A), Mode::ZpX, 4)),
        0xAD => Some((Op::Load(Reg::A), Mode::Abs, 4)),
        0xBD => Some((Op::Load(Reg::A), Mode::AbsX, 4)),
        0xB9 => Some((Op::Load(Reg::A), Mode::AbsY, 4)),
        0xA1 => Some((Op::Load(Reg::A), Mode::IndX, 6)),
        0xB1 => Some((Op::Load(Reg::A), Mode::IndY, 5)),
        0xAA => Some((Op::Transfer(Reg::A, Reg::X), Mode::Implied, 2)),
        0x8A => Some((Op::Transfer(Reg::X, Reg::A), Mode::Implied, 2)),
        0xA8 => Some((Op::Transfer(Reg::A, Reg::Y), Mode::Implied, 2)),
        0x98 => Some((Op::Transfer(Reg::Y, Reg::A), Mode::Implied, 2)),
        0x9A => Some((Op::Txs, Mode::Implied, 2)),
        0xBA => Some((Op::Transfer(Reg::S, Reg::X), Mode::Implied, 2)),
        0xCA => Some((Op::DecReg(Reg::X), Mode::Implied, 2)),
        0x88 => Some((Op::DecReg(Reg::Y), Mode::Implied, 2)),
        0xE8 => Some((Op::IncReg(Reg::X), Mode::Implied, 2)),
        0xC8 => Some((Op::IncReg(Reg::Y), Mode::Implied, 2)),
        0x86 => Some((Op::Store(Reg::X), Mode::Zp, 3)),
        0x96 => Some((Op::Store(Reg::X), Mode::ZpY, 4)),
        0x8E => Some((Op::Store(Reg::X), Mode::Abs, 4)),
        0x84 => Some((Op::Store(Reg::Y), Mode::Zp, 3)),
        0x94 => Some((Op::Store(Reg::Y), Mode::ZpX, 4)),
        0x8C => Some((Op::Store(Reg::Y), Mode::Abs, 4)),
        0x85 => Some((Op::Store(Reg::A), Mode::Zp, 3)),
        0x95 => Some((Op::Store(Reg::A), Mode::ZpX, 4)),
        0x8D => Some((Op::Store(Reg::A), Mode::Abs, 4)),
        0x9D => Some((Op::Store(Reg::A), Mode::AbsX, 5)),
        0x99 => Some((Op::Store(Reg::A), Mode::AbsY, 5)),
        0x81 => Some((Op::Store(Reg::A), Mode::IndX, 6)),
        0x91 => Some((Op::Store(Reg::A), Mode::IndY, 6)),
        0x24 => Some((Op::Bit, Mode::Zp, 3)),
        0x2C => Some((Op::Bit, Mode::Abs, 4)),
        0x09 => Some((Op::Ora, Mode::Imm, 2)),
        0x05 => Some((Op::Ora, Mode::Zp, 3)),
        0x15 => Some((Op::Ora, Mode::ZpX, 4)),
        0x0D => Some((Op::Ora, Mode::Abs, 4)),
        0x1D => Some((Op::Ora, Mode::AbsX, 4)),
        0x19 => Some((Op::Ora, Mode::AbsY, 4)),
        0x01 => Some((Op::Ora, Mode::IndX, 6)),
        0x11 => Some((Op::Ora, Mode::IndY, 5)),
        0x29 => Some((Op::And, Mode::Imm, 2)),
        0x25 => Some((Op::And, Mode::Zp, 3)),
        0x35 => Some((Op::And, Mode::ZpX, 4)),
        0x2D => Some((Op::And, Mode::Abs, 4)),
        0x3D => Some((Op::And, Mode::AbsX, 4)),
        0x39 => Some((Op::And, Mode::AbsY, 4)),
        0x21 => Some((Op::And, Mode::IndX, 6)),
        0x31 => Some((Op::And, Mode::IndY, 5)),
        0x49 => Some((Op::Eor, Mode::Imm, 2)),
        0x45 => Some((Op::Eor, Mode::Zp, 3)),
        0x55 => Some((Op::Eor, Mode::ZpX, 4)),
        0x4D => Some((Op::Eor, Mode::Abs, 4)),
        0x5D => Some((Op::Eor, Mode::AbsX, 4)),
        0x59 => Some((Op::Eor, Mode::AbsY, 4)),
        0x41 => Some((Op::Eor, Mode::IndX, 6)),
        0x51 => Some((Op::Eor, Mode::IndY, 5)),
        0x69 => Some((Op::Adc, Mode::Imm, 2)),
        0x65 => Some((Op::Adc, Mode::Zp, 3)),
        0x75 => Some((Op::Adc, Mode::ZpX, 4)),
        0x6D => Some((Op::Adc, Mode::Abs, 4)),
        0x7D => Some((Op::Adc, Mode::AbsX, 4)),
        0x79 => Some((Op::Adc, Mode::AbsY, 4)),
        0x61 => Some((Op::Adc, Mode::IndX, 6)),
        0x71 => Some((Op::Adc, Mode::IndY, 5)),
        0xE9 => Some((Op::Sbc, Mode::Imm, 2)),
        0xE5 => Some((Op::Sbc, Mode::Zp, 3)),
        0xF5 => Some((Op::Sbc, Mode::ZpX, 4)),
        0xED => Some((Op::Sbc, Mode::Abs, 4)),
        0xFD => Some((Op::Sbc, Mode::AbsX, 4)),
        0xF9 => Some((Op::Sbc, Mode::AbsY, 4)),
        0xE1 => Some((Op::Sbc, Mode::IndX, 6)),
        0xF1 => Some((Op::Sbc, Mode::IndY, 5)),
        0xE6 => Some((Op::Inc, Mode::Zp, 5)),
        0xF6 => Some((Op::Inc, Mode::ZpX, 6)),
        0xEE => Some((Op::Inc, Mode::Abs, 6)),
        0xFE => Some((Op::Inc, Mode::AbsX, 7)),
        0xC6 => Some((Op::Dec, Mode::Zp, 5)),
        0xD6 => Some((Op::Dec, Mode::ZpX, 6)),
        0xCE => Some((Op::Dec, Mode::Abs, 6)),
        0xDE => Some((Op::Dec, Mode::AbsX, 7)),
        0x4A => Some((Op::LsrA, Mode::Implied, 2)),
        0x46 => Some((Op::Lsr, Mode::Zp, 5)),
        0x56 => Some((Op::Lsr, Mode::ZpX, 6)),
        0x4E => Some((Op::Lsr, Mode::Abs, 6)),
        0x5E => Some((Op::Lsr, Mode::AbsX, 7)),
        0x0A => Some((Op::AslA, Mode::Implied, 2)),
        0x06 => Some((Op::Asl, Mode::Zp, 5)),
        0x16 => Some((Op::Asl, Mode::ZpX, 6)),
        0x0E => Some((Op::Asl, Mode::Abs, 6)),
        0x1E => Some((Op::Asl, Mode::AbsX, 7)),
        0x2A => Some((Op::RolA, Mode::Implied, 2)),
        0x26 => Some((Op::Rol, Mode::Zp, 5)),
        0x36 => Some((Op::Rol, Mode::ZpX, 6)),
        0x2E => Some((Op::Rol, Mode::Abs, 6)),
        0x3E => Some((Op::Rol, Mode::AbsX, 7)),
        0x6A => Some((Op::RorA, Mode::Implied, 2)),
        0x66 => Some((Op::Ror, Mode::Zp, 5)),
        0x76 => Some((Op::Ror, Mode::ZpX, 6)),
        0x6E => Some((Op::Ror, Mode::Abs, 6)),
        0x7E => Some((Op::Ror, Mode::AbsX, 7)),
        0x48 => Some((Op::Pha, Mode::Implied, 3)),
        0x68 => Some((Op::Pla, Mode::Implied, 4)),
        0x08 => Some((Op::Php, Mode::Implied, 3)),
        0x28 => Some((Op::Plp, Mode::Implied, 4)),
        0xEA => Some((Op::Nop, Mode::Implied, 2)),
        _ => None,
    }
}

// ---------------------------------------------------------------------------
// Registers and flags
// ---------------------------------------------------------------------------
pub open spec fn reg(cpu: Cpu, r: Reg) -> u8 {
    match r {
        Reg::A => cpu.a,
        Reg::X => cpu.x,
        Reg::Y => cpu.y,
        Reg::S => cpu.sp,
    }
}

pub open spec fn with_reg(cpu: Cpu, r: Reg, v: u8) -> Cpu {
    match r {
        Reg::A => Cpu { a: v, ..cpu },
        Reg::X => Cpu { x: v, ..cpu },
        Reg::Y => Cpu { y: v, ..cpu },
        Reg::S => Cpu { sp: v, ..cpu },
    }
}

/// The status byte `p` with Z and N set from the value `v`.
pub open spec fn zn(p: u8, v: u8) -> u8 {
    with_bit(with_bit(p, FLAG_Z, v == 0), FLAG_N, v >= 0x80)
}

/// The result and status of `a + v + C`: carry out of bit 7, and overflow
/// when both operands have one sign and the result the other.
pub open spec fn adc_spec(a: u8, v: u8, p: u8) -> (u8, u8) {
    let sum = a as int + v as int + if p & FLAG_C != 0 {
        1int
    } else {
        0
    };
    let r = (sum % 256) as u8;
    let ovf = (a >= 0x80) == (v >= 0x80) && (r >= 0x80) != (a >= 0x80);
    (r, zn(with_bit(with_bit(p, FLAG_C, sum > 0xFF), FLAG_V, ovf), r))
}

/// The result and status of `a - v - (1 - C)`: carry when no borrow, and
/// overflow when the operands differ in sign and the result's sign is not
/// that of `a`.
pub open spec fn sbc_spec(a: u8, v: u8, p: u8) -> (u8, u8) {
    let diff = a as int - v as int - if p & FLAG_C != 0 {
        0int
    } else {
        1
    };
    let r = (diff % 256) as u8;
    let ovf = (a >= 0x80) != (v >= 0x80) && (r >= 0x80) != (a >= 0x80);
    (r, zn(with_bit(with_bit(p, FLAG_C, diff >= 0), FLAG_V, ovf), r))
}

/// The status after comparing register value `r` with `v`.
pub open spec fn compare_spec(r: u8, v: u8, p: u8) -> u8 {
    with_bit(with_bit(with_bit(p, FLAG_C, r >= v), FLAG_Z, r == v), FLAG_N, wadd8(r, -(v as int)) >= 0x80)
}

/// The status after `BIT`: Z from `a & v`, V and N from bits 6 and 7 of `v`.
pub open spec fn bit_spec(a: u8, v: u8, p: u8) -> u8 {
    with_bit(with_bit(with_bit(p, FLAG_Z, a & v == 0), FLAG_V, v & 0x40 != 0), FLAG_N, v >= 0x80)
}

/// The result and status of a shift, rotate, increment or decrement of `v`
/// (`op` is one of `Asl`, `Lsr`, `Rol`, `Ror`, `Inc`, `Dec`).
pub open spec fn modify(op: Op, v: u8, p: u8) -> (u8, u8) {
    let c = p & FLAG_C != 0;
    match op {
        Op::Inc => (wadd8(v, 1), zn(p, wadd8(v, 1))),
        Op::Dec => (wadd8(v, -1), zn(p, wadd8(v, -1))),
        _ => {
            let (r, carry) = match op {
                Op::Asl => ((v as int * 2 % 256) as u8, v >= 0x80),
                Op::Lsr => (v / 2, v % 2 == 1),
                Op::Rol => (((v as int * 2 + if c {
                    1int
                } else {
                    0
                }) % 256) as u8, v >= 0x80),
                _ => ((v / 2 + if c {
                    0x80u8
                } else {
                    0
                }) as u8, v % 2 == 1),
            };
            (r, zn(with_bit(p, FLAG_C, carry), r))
        },
    }
}

// ---------------------------------------------------------------------------
// Operands
// ---------------------------------------------------------------------------
/// The byte at PC, with PC moved past it.
pub open spec fn fetch_spec<B: Bus>(cpu: Cpu, m: B::V) -> (Cpu, B::V, u8) {
    let (m1, b) = B::read_spec(m, cpu.pc);
    (Cpu { pc: wadd16(cpu.pc, 1), ..cpu }, m1, b)
}

/// The little-endian word at PC, with PC moved past it.
pub open spec fn fetch16_spec<B: Bus>(cpu: Cpu, m: B::V) -> (Cpu, B::V, u16) {
    let (c1, m1, lo) = fetch_spec::<B>(cpu, m);
    let (c2, m2, hi) = fetch_spec::<B>(c1, m1);
    (c2, m2, word(hi, lo))
}

/// The address that a memory mode names, and whether indexing crossed a
/// page. Zero-page indexing wraps within the zero page; so does the pointer
/// of the indirect modes.
pub open spec fn address_spec<B: Bus>(mode: Mode, cpu: Cpu, m: B::V) -> (Cpu, B::V, u16, bool) {
    match mode {
        Mode::Zp => {
            let (c1, m1, b) = fetch_spec::<B>(cpu, m);
            (c1, m1, b as u16, false)
        },
        Mode::ZpX => {
            let (c1, m1, b) = fetch_spec::<B>(cpu, m);
            (c1, m1, wadd8(b, cpu.x as int) as u16, false)
        },
        Mode::ZpY => {
            let (c1, m1, b) = fetch_spec::<B>(cpu, m);
            (c1, m1, wadd8(b, cpu.y as int) as u16, false)
        },
        Mode::AbsX => {
            let (c1, m1, base) = fetch16_spec::<B>(cpu, m);
            let a = wadd16(base, cpu.x as int);
            (c1, m1, a, hi_byte(base) != hi_byte(a))
        },
        Mode::AbsY => {
            let (c1, m1, base) = fetch16_spec::<B>(cpu, m);
            let a = wadd16(base, cpu.y as int);
            (c1, m1, a, hi_byte(base) != hi_byte(a))
        },
        Mode::IndX => {
            let (c1, m1, b) = fetch_spec::<B>(cpu, m);
            let z = wadd8(b, cpu.x as int);
            let (m2, lo) = B::read_spec(m1, z as u16);
            let (m3, hi) = B::read_spec(m2, wadd8(z, 1) as u16);
            (c1, m3, word(hi, lo), false)
        },
        Mode::IndY => {
            let (c1, m1, z) = fetch_spec::<B>(cpu, m);
            let (m2, lo) = B::read_spec(m1, z as u16);
            let (m3, hi) = B::read_spec(m2, wadd8(z, 1) as u16);
            let ptr = word(hi, lo);
            let a = wadd16(ptr, cpu.y as int);
            (c1, m3, a, hi_byte(ptr) != hi_byte(a))
        },
        _ => {
            let (c1, m1, a) = fetch16_spec::<B>(cpu, m);
            (c1, m1, a, false)
        },
    }
}

/// The operand byte of a reading instruction, and whether indexing crossed
/// a page.
pub open spec fn operand_spec<B: Bus>(mode: Mode, cpu: Cpu, m: B::V) -> (Cpu, B::V, u8, bool) {
    if mode is Imm {
        let (c1, m1, b) = fetch_spec::<B>(cpu, m);
        (c1, m1, b, false)
    } else {
        let (c1, m1, a, crossed) = address_spec::<B>(mode, cpu, m);
        let (m2, v) = B::read_spec(m1, a);
        (c1, m2, v, crossed)
    }
}

/// Push `v` at 0x100 + SP; SP moves down.
pub open spec fn push_spec<B: Bus>(cpu: Cpu, m: B::V, v: u8) -> (Cpu, B::V) {
    (Cpu { sp: wadd8(cpu.sp, -1), ..cpu }, B::write_spec(m, (0x100 + cpu.sp) as u16, v))
}

/// SP moves up; pop the byte at 0x100 + SP.
pub open spec fn pop_spec<B: Bus>(cpu: Cpu, m: B::V) -> (Cpu, B::V, u8) {
    let sp = wadd8(cpu.sp, 1);
    let (m1, v) = B::read_spec(m, (0x100 + sp) as u16);
    (Cpu { sp, ..cpu }, m1, v)
}

// ---------------------------------------------------------------------------
// Instructions
// ---------------------------------------------------------------------------
/// The processor after a reading instruction took operand `v`.
pub open spec fn apply_read(op: Op, cpu: Cpu, v: u8) -> Cpu {
    match op {
        Op::Load(r) => Cpu { p: zn(cpu.p, v), ..with_reg(cpu, r, v) },
        Op::Compare(r) => Cpu { p: compare_spec(reg(cpu, r), v, cpu.p), ..cpu },
        Op::Ora => Cpu { a: cpu.a | v, p: zn(cpu.p, cpu.a | v), ..cpu },
        Op::And => Cpu { a: cpu.a & v, p: zn(cpu.p, cpu.a & v), ..cpu },
        Op::Eor => Cpu { a: cpu.a ^ v, p: zn(cpu.p, cpu.a ^ v), ..cpu },
        Op::Adc => {
            let (a, p) = adc_spec(cpu.a, v, cpu.p);
            Cpu { a, p, ..cpu }
        },
        Op::Sbc => {
            let (a, p) = sbc_spec(cpu.a, v, cpu.p);
            Cpu { a, p, ..cpu }
        },
        _ => Cpu { p: bit_spec(cpu.a, v, cpu.p), ..cpu },
    }
}

/// Instructions that read an operand; indexing across a page costs one
/// more cycle.
#[verifier::opaque]
pub open spec fn read_sem<B: Bus>(op: Op, mode: Mode, base: u32, cpu: Cpu, m: B::V) -> (
    Cpu,
    B::V,
    u32,
) {
    let (c1, m1, v, crossed) = operand_spec::<B>(mode, cpu, m);
    (apply_read(op, c1, v), m1, if crossed {
        (base + 1) as u32
    } else {
        base
    })
}

/// Stores, and read-modify-write instructions on memory.
#[verifier::opaque]
pub open spec fn write_sem<B: Bus>(op: Op, mode: Mode, base: u32, cpu: Cpu, m: B::V) -> (
    Cpu,
    B::V,
    u32,
) {
    let (c1, m1, addr, _) = address_spec::<B>(mode, cpu, m);
    match op {
        Op::Store(r) => (c1, B::write_spec(m1, addr, reg(c1, r)), base),
        _ => {
            let (m2, v) = B::read_spec(m1, addr);
            let (r, p) = modify(op, v, c1.p);
            (Cpu { p, ..c1 }, B::write_spec(m2, addr, r), base)
        },
    }
}

/// Instructions on registers alone.
#[verifier::opaque]
pub open spec fn implied_sem(op: Op, cpu: Cpu) -> Cpu {
    match op {
        Op::AslA => {
            let (a, p) = modify(Op::Asl, cpu.a, cpu.p);
            Cpu { a, p, ..cpu }
        },
        Op::LsrA => {
            let (a, p) = modify(Op::Lsr, cpu.a, cpu.p);
            Cpu { a, p, ..cpu }
        },
        Op::RolA => {
            let (a, p) = modify(Op::Rol, cpu.a, cpu.p);
            Cpu { a, p, ..cpu }
        },
        Op::RorA => {
            let (a, p) = modify(Op::Ror, cpu.a, cpu.p);
            Cpu { a, p, ..cpu }
        },
        Op::Transfer(s, d) => Cpu { p: zn(cpu.p, reg(cpu, s)), ..with_reg(cpu, d, reg(cpu, s)) },
        Op::Txs => Cpu { sp: cpu.x, ..cpu },
        Op::IncReg(r) => Cpu {
            p: zn(cpu.p, wadd8(reg(cpu, r), 1)),
            ..with_reg(cpu, r, wadd8(reg(cpu, r), 1))
        },
        Op::DecReg(r) => Cpu {
            p: zn(cpu.p, wadd8(reg(cpu, r), -1)),
            ..with_reg(cpu, r, wadd8(reg(cpu, r), -1))
        },
        Op::Flag(mask, on) => Cpu { p: with_bit(cpu.p, mask, on), ..cpu },
        _ => cpu,
    }
}

/// A relative branch: taken, PC moves by the signed offset, one more cycle
/// when it lands on another page.
pub open spec fn branch_spec<B: Bus>(cpu: Cpu, m: B::V, taken: bool) -> (Cpu, B::V, u32) {
    let (c1, m1, off) = fetch_spec::<B>(cpu, m);
    if !taken {
        (c1, m1, 2)
    } else {
        let pc = wadd16(c1.pc, signed8(off));
        (Cpu { pc, ..c1 }, m1, if hi_byte(c1.pc) != hi_byte(pc) {
            4
        } else {
            3
        })
    }
}

/// Jumps, calls, returns, branches and the stack.
#[verifier::opaque]
pub open spec fn flow_sem<B: Bus>(op: Op, base: u32, cpu: Cpu, m: B::V) -> (Cpu, B::V, u32) {
    match op {
        Op::Branch(mask, set) => branch_spec::<B>(cpu, m, (cpu.p & mask != 0) == set),
        Op::Jsr => {
            let (c1, m1, dest) = fetch16_spec::<B>(cpu, m);
            let ret = wadd16(c1.pc, -1);
            let (c2, m2) = push_spec::<B>(c1, m1, hi_byte(ret));
            let (c3, m3) = push_spec::<B>(c2, m2, lo_byte(ret));
            (Cpu { pc: dest, ..c3 }, m3, base)
        },
        Op::Rts => {
            let (c1, m1, lo) = pop_spec::<B>(cpu, m);
            let (c2, m2, hi) = pop_spec::<B>(c1, m1);
            (Cpu { pc: wadd16(word(hi, lo), 1), ..c2 }, m2, base)
        },
        Op::Rti => {
            let (c1, m1, p) = pop_spec::<B>(cpu, m);
            let (c2, m2, lo) = pop_spec::<B>(c1, m1);
            let (c3, m3, hi) = pop_spec::<B>(c2, m2);
            (Cpu { p: (p & !FLAG_B) | FLAG_U, pc: word(hi, lo), ..c3 }, m3, base)
        },
        Op::Jmp => {
            let (c1, m1, dest) = fetch16_spec::<B>(cpu, m);
            (Cpu { pc: dest, ..c1 }, m1, base)
        },
        Op::JmpInd => {
            let (c1, m1, ptr) = fetch16_spec::<B>(cpu, m);
            let (m2, lo) = B::read_spec(m1, ptr);
            let hi_addr = if ptr % 256 == 0xFF {
                (ptr - 0xFF) as u16
            } else {
                wadd16(ptr, 1)
            };
            let (m3, hi) = B::read_spec(m2, hi_addr);
            (Cpu { pc: word(hi, lo), ..c1 }, m3, base)
        },
        Op::Pha => {
            let (c1, m1) = push_spec::<B>(cpu, m, cpu.a);
            (c1, m1, base)
        },
        Op::Pla => {
            let (c1, m1, v) = pop_spec::<B>(cpu, m);
            (Cpu { a: v, p: zn(c1.p, v), ..c1 }, m1, base)
        },
        Op::Php => {
            let (c1, m1) = push_spec::<B>(cpu, m, cpu.p | FLAG_B | FLAG_U);
            (c1, m1, base)
        },
        _ => {
            let (c1, m1, v) = pop_spec::<B>(cpu, m);
            (Cpu { p: (v & !FLAG_B) | FLAG_U, ..c1 }, m1, base)
        },
    }
}

/// The instruction `op` in `mode` with base cycle count `base`, after its
/// opcode was fetched.
pub open spec fn exec_sem<B: Bus>(op: Op, mode: Mode, base: u32, cpu: Cpu, m: B::V) -> (
    Cpu,
    B::V,
    u32,
) {
    match op {
        Op::Load(_) | Op::Compare(_) | Op::Ora | Op::And | Op::Eor | Op::Adc | Op::Sbc | Op::Bit => {
            read_sem::<B>(op, mode, base, cpu, m)
        },
        Op::Store(_) | Op::Asl | Op::Lsr | Op::Rol | Op::Ror | Op::Inc | Op::Dec => {
            write_sem::<B>(op, mode, base, cpu, m)
        },
        Op::AslA | Op::LsrA | Op::RolA | Op::RorA | Op::Transfer(_, _) | Op::Txs | Op::IncReg(_)
        | Op::DecReg(_) | Op::Flag(_, _) | Op::Nop => (implied_sem(op, cpu), m, base),
        _ => flow_sem::<B>(op, base, cpu, m),
    }
}

/// One instruction: the processor, the bus and the cycles it took. An
/// opcode outside the table takes 0 cycles (the machine stops), after its
/// fetch.
pub open spec fn step_sem<B: Bus>(cpu: Cpu, m: B::V) -> (Cpu, B::V, u32) {
    let (c1, m1, op) = fetch_spec::<B>(cpu, m);
    match decode(op) {
        Some((o, mode, base)) => exec_sem::<B>(o, mode, base, c1, m1),
        None => (c1, m1, 0),
    }
}

// ---------------------------------------------------------------------------
// Bit facts used by the executable code
// ---------------------------------------------------------------------------
proof fn lemma_alu_bits()
    by (bit_vector)
    ensures
        forall|a: u8, v: u8, r: u8| #[trigger] (!(a ^ v) & (a ^ r) & 0x80) != 0 <==> ((a >= 0x80) == (v
            >= 0x80) && (r >= 0x80) != (a >= 0x80)),
        forall|a: u8, v: u8, r: u8| #[trigger] ((a ^ v) & (a ^ r) & 0x80) != 0 <==> ((a >= 0x80) != (v
            >= 0x80) && (r >= 0x80) != (a >= 0x80)),
        forall|v: u8| #[trigger] (v >> 1u8) == v / 2,
        forall|v: u8| #[trigger] (v << 1u8) == (v as int * 2 % 256) as u8,
        forall|v: u8| #[trigger] ((v << 1u8) | 1) == ((v as int * 2 + 1) % 256) as u8,
        forall|v: u8| #[trigger] ((v >> 1u8) | 0x80) == v / 2 + 0x80,
        forall|v: u8| #[trigger] (v & 1) != 0 <==> v % 2 == 1,
        forall|v: u8| #[trigger] (v & 0x80) != 0 <==> v >= 0x80,
{
}

impl Cpu {
    pub open spec fn new_spec() -> Cpu {
        Cpu { a: 0, x: 0, y: 0, p: FLAG_U | FLAG_I, sp: 0xFD, pc: 0 }
    }

    /// Power-up state: I and U set, SP at 0xFD.
    pub fn new() -> (r: Self)
        ensures
            r == Cpu::new_spec(),
    {
        Self { a: 0, x: 0, y: 0, p: FLAG_U | FLAG_I, sp: 0xFD, pc: 0 }
    }

    /// Reset: PC from the vector at 0xFFFC, SP at 0xFD, I and U set.
    pub fn reset<B: Bus>(&mut self, bus: &mut B)
        requires
            B::inv(old(bus)@),
        ensures
            B::inv(final(bus)@),
            ({
                let (m1, lo) = B::read_spec(old(bus)@, 0xFFFC);
                let (m2, hi) = B::read_spec(m1, 0xFFFD);
                &&& final(bus)@ == m2
                &&& *final(self) == Cpu {
                    pc: word(hi, lo),
                    sp: 0xFD,
                    p: old(self).p | FLAG_I | FLAG_U,
                    ..*old(self)
                }
            }),
    {
        let lo = bus.read(0xFFFC);
        let hi = bus.read(0xFFFD);
        self.pc = (hi as u16) * 256 + lo as u16;
        self.sp = 0xFD;
        self.p = self.p | FLAG_I | FLAG_U;
    }

    /// Starts at `pc` with the power-up registers, ignoring the reset vector.
    pub fn reset_at(&mut self, pc: u16)
        ensures
            *final(self) == (Cpu { pc, ..Cpu::new_spec() }),
    {
        self.pc = pc;
        self.sp = 0xFD;
        self.p = FLAG_U | FLAG_I;
        self.a = 0;
        self.x = 0;
        self.y = 0;
    }

    fn fetch<B: Bus>(&mut self, bus: &mut B) -> (b: u8)
        requires
            B::inv(old(bus)@),
        ensures
            B::inv(final(bus)@),
            (*final(self), final(bus)@, b) == fetch_spec::<B>(*old(self), old(bus)@),
    {
        let b = bus.read(self.pc);
        self.pc = self.pc.wrapping_add(1);
        b
    }

    fn fetch_u16<B: Bus>(&mut self, bus: &mut B) -> (w: u16)
        requires
            B::inv(old(bus)@),
        ensures
            B::inv(final(bus)@),
            (*final(self), final(bus)@, w) == fetch16_spec::<B>(*old(self), old(bus)@),
    {
        let lo = self.fetch(bus);
        let hi = self.fetch(bus);
        (hi as u16) * 256 + lo as u16
    }

    fn set_zn(&mut self, v: u8)
        ensures
            *final(self) == (Cpu { p: zn(old(self).p, v), ..*old(self) }),
    {
        self.p = with_bit_x(self.p, FLAG_Z, v == 0);
        self.p = with_bit_x(self.p, FLAG_N, v >= 0x80);
    }

    fn get_reg(&self, r: Reg) -> (v: u8)
        ensures
            v == reg(*self, r),
    {
        match r {
            Reg::A => self.a,
            Reg::X => self.x,
            Reg::Y => self.y,
            Reg::S => self.sp,
        }
    }

    fn set_reg(&mut self, r: Reg, v: u8)
        ensures
            *final(self) == with_reg(*old(self), r, v),
    {
        match r {
            Reg::A => self.a = v,
            Reg::X => self.x = v,
            Reg::Y => self.y = v,
            Reg::S => self.sp = v,
        }
    }

    #[verifier::rlimit(30)]
    fn zp_x<B: Bus>(&mut self, bus: &mut B) -> (a: u16)
        requires
            B::inv(old(bus)@),
        ensures
            B::inv(final(bus)@),
            (*final(self), final(bus)@, a, false) == address_spec::<B>(
                Mode::ZpX,
                *old(self),
                old(bus)@,
            ),
    {
        let base = self.fetch(bus);
        base.wrapping_add(self.x) as u16
    }

    #[verifier::rlimit(30)]
    fn zp_y<B: Bus>(&mut self, bus: &mut B) -> (a: u16)
        requires
            B::inv(old(bus)@),
        ensures
            B::inv(final(bus)@),
            (*final(self), final(bus)@, a, false) == address_spec::<B>(
                Mode::ZpY,
                *old(self),
                old(bus)@,
            ),
    {
        let base = self.fetch(bus);
        base.wrapping_add(self.y) as u16
    }

    #[verifier::rlimit(30)]
    fn abs_x<B: Bus>(&mut self, bus: &mut B) -> (r: (u16, bool))
        requires
            B::inv(old(bus)@),
        ensures
            B::inv(final(bus)@),
            (*final(self), final(bus)@, r.0, r.1) == address_spec::<B>(
                Mode::AbsX,
                *old(self),
                old(bus)@,
            ),
    {
        let base = self.fetch_u16(bus);
        let addr = base.wrapping_add(self.x as u16);
        let crossed = base / 256 != addr / 256;
        (addr, crossed)
    }

    #[verifier::rlimit(30)]
    fn abs_y<B: Bus>(&mut self, bus: &mut B) -> (r: (u16, bool))
        requires
            B::inv(old(bus)@),
        ensures
            B::inv(final(bus)@),
            (*final(self), final(bus)@, r.0, r.1) == address_spec::<B>(
                Mode::AbsY,
                *old(self),
                old(bus)@,
            ),
    {
        let base = self.fetch_u16(bus);
        let addr = base.wrapping_add(self.y as u16);
        let crossed = base / 256 != addr / 256;
        (addr, crossed)
    }

    #[verifier::rlimit(80)]
    fn ind_x<B: Bus>(&mut self, bus: &mut B) -> (a: u16)
        requires
            B::inv(old(bus)@),
        ensures
            B::inv(final(bus)@),
            (*final(self), final(bus)@, a, false) == address_spec::<B>(
                Mode::IndX,
                *old(self),
                old(bus)@,
            ),
    {
        let base = self.fetch(bus).wrapping_add(self.x);
        let lo = bus.read(base as u16);
        let hi = bus.read(base.wrapping_add(1) as u16);
        (hi as u16) * 256 + lo as u16
    }

    #[verifier::rlimit(80)]
    fn ind_y<B: Bus>(&mut self, bus: &mut B) -> (r: (u16, bool))
        requires
            B::inv(old(bus)@),
        ensures
            B::inv(final(bus)@),
            (*final(self), final(bus)@, r.0, r.1) == address_spec::<B>(
                Mode::IndY,
                *old(self),
                old(bus)@,
            ),
    {
        let zp = self.fetch(bus);
        let lo = bus.read(zp as u16);
        let hi = bus.read(zp.wrapping_add(1) as u16);
        let ptr = (hi as u16) * 256 + lo as u16;
        let addr = ptr.wrapping_add(self.y as u16);
        let crossed = ptr / 256 != addr / 256;
        (addr, crossed)
    }

    /// The address of a memory mode.
    #[verifier::rlimit(30)]
    fn address<B: Bus>(&mut self, bus: &mut B, mode: Mode) -> (r: (u16, bool))
        requires
            B::inv(old(bus)@),
        ensures
            B::inv(final(bus)@),
            (*final(self), final(bus)@, r.0, r.1) == address_spec::<B>(mode, *old(self), old(bus)@),
    {
        match mode {
            Mode::Zp => {
                let a = self.fetch(bus) as u16;
                (a, false)
            },
            Mode::ZpX => (self.zp_x(bus), false),
            Mode::ZpY => (self.zp_y(bus), false),
            Mode::AbsX => self.abs_x(bus),
            Mode::AbsY => self.abs_y(bus),
            Mode::IndX => (self.ind_x(bus), false),
            Mode::IndY => self.ind_y(bus),
            _ => (self.fetch_u16(bus), false),
        }
    }

    /// The operand byte of a reading instruction.
    #[verifier::rlimit(30)]
    fn operand<B: Bus>(&mut self, bus: &mut B, mode: Mode) -> (r: (u8, bool))
        requires
            B::inv(old(bus)@),
        ensures
            B::inv(final(bus)@),
            (*final(self), final(bus)@, r.0, r.1) == operand_spec::<B>(mode, *old(self), old(bus)@),
    {
        if let Mode::Imm = mode {
            (self.fetch(bus), false)
        } else {
            let (a, crossed) = self.address(bus, mode);
            (bus.read(a), crossed)
        }
    }

    /// Pushes `value` on the stack at 0x100 + SP.
    pub fn push<B: Bus>(&mut self, bus: &mut B, value: u8)
        requires
            B::inv(old(bus)@),
        ensures
            B::inv(final(bus)@),
            (*final(self), final(bus)@) == push_spec::<B>(*old(self), old(bus)@, value),
    {
        bus.write(0x0100 + self.sp as u16, value);
        self.sp = self.sp.wrapping_sub(1);
    }

    fn pop<B: Bus>(&mut self, bus: &mut B) -> (v: u8)
        requires
            B::inv(old(bus)@),
        ensures
            B::inv(final(bus)@),
            (*final(self), final(bus)@, v) == pop_spec::<B>(*old(self), old(bus)@),
    {
        self.sp = self.sp.wrapping_add(1);
        bus.read(0x0100 + self.sp as u16)
    }

    fn compare(&mut self, reg: u8, value: u8)
        ensures
            *final(self) == (Cpu { p: compare_spec(reg, value, old(self).p), ..*old(self) }),
    {
        let result = reg.wrapping_sub(value);
        self.p = with_bit_x(self.p, FLAG_C, reg >= value);
        self.p = with_bit_x(self.p, FLAG_Z, result == 0);
        self.p = with_bit_x(self.p, FLAG_N, result >= 0x80);
    }

    fn adc(&mut self, value: u8)
        ensures
            (final(self).a, final(self).p) == adc_spec(old(self).a, value, old(self).p),
            *final(self) == (Cpu { a: final(self).a, p: final(self).p, ..*old(self) }),
    {
        proof {
            lemma_alu_bits();
        }
        let carry: u16 = if self.p & FLAG_C != 0 {
            1
        } else {
            0
        };
        let sum = self.a as u16 + value as u16 + carry;
        let r = (sum % 256) as u8;
        let v = !(self.a ^ value) & (self.a ^ r) & 0x80 != 0;
        self.p = with_bit_x(self.p, FLAG_C, sum > 0xFF);
        self.p = with_bit_x(self.p, FLAG_V, v);
        self.a = r;
        self.set_zn(r);
    }

    fn sbc(&mut self, value: u8)
        ensures
            (final(self).a, final(self).p) == sbc_spec(old(self).a, value, old(self).p),
            *final(self) == (Cpu { a: final(self).a, p: final(self).p, ..*old(self) }),
    {
        proof {
            lemma_alu_bits();
        }
        let carry_in: u8 = if self.p & FLAG_C != 0 {
            1
        } else {
            0
        };
        let b1 = self.a < value;
        let r1 = self.a.wrapping_sub(value);
        let b2 = r1 < 1 - carry_in;
        let r = r1.wrapping_sub(1 - carry_in);
        let v = (self.a ^ value) & (self.a ^ r) & 0x80 != 0;
        self.p = with_bit_x(self.p, FLAG_C, !(b1 || b2));
        self.p = with_bit_x(self.p, FLAG_V, v);
        self.a = r;
        self.set_zn(r);
    }

    fn asl_val(&mut self, value: u8) -> (r: u8)
        ensures
            (r, final(self).p) == modify(Op::Asl, value, old(self).p),
            *final(self) == (Cpu { p: final(self).p, ..*old(self) }),
    {
        proof {
            lemma_alu_bits();
        }
        self.p = with_bit_x(self.p, FLAG_C, value & 0x80 != 0);
        let r = value << 1;
        self.set_zn(r);
        r
    }

    fn lsr_val(&mut self, value: u8) -> (r: u8)
        ensures
            (r, final(self).p) == modify(Op::Lsr, value, old(self).p),
            *final(self) == (Cpu { p: final(self).p, ..*old(self) }),
    {
        proof {
            lemma_alu_bits();
        }
        self.p = with_bit_x(self.p, FLAG_C, value & 1 != 0);
        let r = value >> 1;
        self.set_zn(r);
        r
    }

    fn rol_val(&mut self, value: u8) -> (r: u8)
        ensures
            (r, final(self).p) == modify(Op::Rol, value, old(self).p),
            *final(self) == (Cpu { p: final(self).p, ..*old(self) }),
    {
        proof {
            lemma_alu_bits();
        }
        let old_c = (self.p & FLAG_C) != 0;
        self.p = with_bit_x(self.p, FLAG_C, value & 0x80 != 0);
        let r = if old_c {
            (value << 1) | 1
        } else {
            value << 1
        };
        self.set_zn(r);
        r
    }

    fn ror_val(&mut self, value: u8) -> (r: u8)
        ensures
            (r, final(self).p) == modify(Op::Ror, value, old(self).p),
            *final(self) == (Cpu { p: final(self).p, ..*old(self) }),
    {
        proof {
            lemma_alu_bits();
        }
        let old_c = (self.p & FLAG_C) != 0;
        self.p = with_bit_x(self.p, FLAG_C, value & 0x01 != 0);
        let r = if old_c {
            (value >> 1) | 0x80
        } else {
            value >> 1
        };
        self.set_zn(r);
        r
    }

    fn modify_val(&mut self, op: Op, value: u8) -> (r: u8)
        requires
            op is Asl || op is Lsr || op is Rol || op is Ror || op is Inc || op is Dec,
        ensures
            (r, final(self).p) == modify(op, value, old(self).p),
            *final(self) == (Cpu { p: final(self).p, ..*old(self) }),
    {
        match op {
            Op::Asl => self.asl_val(value),
            Op::Lsr => self.lsr_val(value),
            Op::Rol => self.rol_val(value),
            Op::Ror => self.ror_val(value),
            Op::Inc => {
                let v = value.wrapping_add(1);
                self.set_zn(v);
                v
            },
            _ => {
                assert(op is Dec);
                let v = value.wrapping_sub(1);
                self.set_zn(v);
                v
            },
        }
    }

    fn branch<B: Bus>(&mut self, bus: &mut B, taken: bool) -> (n: u32)
        requires
            B::inv(old(bus)@),
        ensures
            B::inv(final(bus)@),
            (*final(self), final(bus)@, n) == branch_spec::<B>(*old(self), old(bus)@, taken),
    {
        let off = self.fetch(bus);
        if !taken {
            return 2;
        }
        let old = self.pc;
        if off < 128 {
            self.pc = self.pc.wrapping_add(off as u16);
        } else {
            self.pc = self.pc.wrapping_sub(256 - off as u16);
        }
        if old / 256 != self.pc / 256 {
            4
        } else {
            3
        }
    }
}


impl Cpu {
    /// The table entry of opcode `op`.
    fn decode_op(op: u8) -> (r: Option<(Op, Mode, u32)>)
        ensures
            r == decode(op),
    {
        match op {
            0x10 => Some((Op::Branch(FLAG_N, false), Mode::Imm, 2)),
            0x30 => Some((Op::Branch(FLAG_N, true), Mode::Imm, 2)),
            0x50 => Some((Op::Branch(FLAG_V, false), Mode::Imm, 2)),
            0x70 => Some((Op::Branch(FLAG_V, true), Mode::Imm, 2)),
            0x90 => Some((Op::Branch(FLAG_C, false), Mode::Imm, 2)),
            0xB0 => Some((Op::Branch(FLAG_C, true), Mode::Imm, 2)),
            0xD0 => Some((Op::Branch(FLAG_Z, false), Mode::Imm, 2)),
            0xF0 => Some((Op::Branch(FLAG_Z, true), Mode::Imm, 2)),
            0x20 => Some((Op::Jsr, Mode::Abs, 6)),
            0x60 => Some((Op::Rts, Mode::Implied, 6)),
            0x40 => Some((Op::Rti, Mode::Implied, 7)),
            0x4C => Some((Op::Jmp, Mode::Abs, 3)),
            0x6C => Some((Op::JmpInd, Mode::Abs, 5)),
            0xC9 => Some((Op::Compare(Reg::A), Mode::Imm, 2)),
            0xC5 => Some((Op::Compare(Reg::A), Mode::Zp, 3)),
            0xD5 => Some((Op::Compare(Reg::A), Mode::ZpX, 4)),
            0xCD => Some((Op::Compare(Reg::A), Mode::Abs, 4)),
            0xDD => Some((Op::Compare(Reg::A), Mode::AbsX, 4)),
            0xD9 => Some((Op::Compare(Reg::A), Mode::AbsY, 4)),
            0xC1 => Some((Op::Compare(Reg::A), Mode::IndX, 6)),
            0xD1 => Some((Op::Compare(Reg::A), Mode::IndY, 5)),
            0xE0 => Some((Op::Compare(Reg::X), Mode::Imm, 2)),
            0xE4 => Some((Op::Compare(Reg::X), Mode::Zp, 3)),
            0xEC => Some((Op::Compare(Reg::X), Mode::Abs, 4)),
            0xC0 => Some((Op::Compare(Reg::Y), Mode::Imm, 2)),
            0xC4 => Some((Op::Compare(Reg::Y), Mode::Zp, 3)),
            0xCC => Some((Op::Compare(Reg::Y), Mode::Abs, 4)),
            0x18 => Some((Op::Flag(FLAG_C, false), Mode::Implied, 2)),
            0x38 => Some((Op::Flag(FLAG_C, true), Mode::Implied, 2)),
            0xF8 => Some((Op::Flag(FLAG_D, true), Mode::Implied, 2)),
            0x78 => Some((Op::Flag(FLAG_I, true), Mode::Implied, 2)),
            0xD8 => Some((Op::Flag(FLAG_D, false), Mode::Implied, 2)),
            0x58 => Some((Op::Flag(FLAG_I, false), Mode::Implied, 2)),
            0xB8 => Some((Op::Flag(FLAG_V, false), Mode::Implied, 2)),
            0xA0 => Some((Op::Load(Reg::Y), Mode::Imm, 2)),
            0xA4 => Some((Op::Load(Reg::Y), Mode::Zp, 3)),
            0xB4 => Some((Op::Load(Reg::Y), Mode::ZpX, 4)),
            0xAC => Some((Op::Load(Reg::Y), Mode::Abs, 4)),
            0xBC => Some((Op::Load(Reg::Y), Mode::AbsX, 4)),
            0xA2 => Some((Op::Load(Reg::X), Mode::Imm, 2)),
            0xA6 => Some((Op::Load(Reg::X), Mode::Zp, 3)),
            0xB6 => Some((Op::Load(Reg::X), Mode::ZpY, 4)),
            0xAE => Some((Op::Load(Reg::X), Mode::Abs, 4)),
            0xBE => Some((Op::Load(Reg::X), Mode::AbsY, 4)),
            0xA9 => Some((Op::Load(Reg::A), Mode::Imm, 2)),
            0xA5 => Some((Op::Load(Reg::A), Mode::Zp, 3)),
            0xB5 => Some((Op::Load(Reg::A), Mode::ZpX, 4)),
            0xAD => Some((Op::Load(Reg::A), Mode::Abs, 4)),
            0xBD => Some((Op::Load(Reg::A), Mode::AbsX, 4)),
            0xB9 => Some((Op::Load(Reg::A), Mode::AbsY, 4)),
            0xA1 => Some((Op::Load(Reg::A), Mode::IndX, 6)),
            0xB1 => Some((Op::Load(Reg::A), Mode::IndY, 5)),
            0xAA => Some((Op::Transfer(Reg::A, Reg::X), Mode::Implied, 2)),
            0x8A => Some((Op::Transfer(Reg::X, Reg::A), Mode::Implied, 2)),
            0xA8 => Some((Op::Transfer(Reg::A, Reg::Y), Mode::Implied, 2)),
            0x98 => Some((Op::Transfer(Reg::Y, Reg::A), Mode::Implied, 2)),
            0x9A => Some((Op::Txs, Mode::Implied, 2)),
            0xBA => Some((Op::Transfer(Reg::S, Reg::X), Mode::Implied, 2)),
            0xCA => Some((Op::DecReg(Reg::X), Mode::Implied, 2)),
            0x88 => Some((Op::DecReg(Reg::Y), Mode::Implied, 2)),
            0xE8 => Some((Op::IncReg(Reg::X), Mode::Implied, 2)),
            0xC8 => Some((Op::IncReg(Reg::Y), Mode::Implied, 2)),
            0x86 => Some((Op::Store(Reg::X), Mode::Zp, 3)),
            0x96 => Some((Op::Store(Reg::X), Mode::ZpY, 4)),
            0x8E => Some((Op::Store(Reg::X), Mode::Abs, 4)),
            0x84 => Some((Op::Store(Reg::Y), Mode::Zp, 3)),
            0x94 => Some((Op::Store(Reg::Y), Mode::ZpX, 4)),
            0x8C => Some((Op::Store(Reg::Y), Mode::Abs, 4)),
            0x85 => Some((Op::Store(Reg::A), Mode::Zp, 3)),
            0x95 => Some((Op::Store(Reg::A), Mode::ZpX, 4)),
            0x8D => Some((Op::Store(Reg::A), Mode::Abs, 4)),
            0x9D => Some((Op::Store(Reg::A), Mode::AbsX, 5)),
            0x99 => Some((Op::Store(Reg::A), Mode::AbsY, 5)),
            0x81 => Some((Op::Store(Reg::A), Mode::IndX, 6)),
            0x91 => Some((Op::Store(Reg::A), Mode::IndY, 6)),
            0x24 => Some((Op::Bit, Mode::Zp, 3)),
            0x2C => Some((Op::Bit, Mode::Abs, 4)),
            0x09 => Some((Op::Ora, Mode::Imm, 2)),
            0x05 => Some((Op::Ora, Mode::Zp, 3)),
            0x15 => Some((Op::Ora, Mode::ZpX, 4)),
            0x0D => Some((Op::Ora, Mode::Abs, 4)),
            0x1D => Some((Op::Ora, Mode::AbsX, 4)),
            0x19 => Some((Op::Ora, Mode::AbsY, 4)),
            0x01 => Some((Op::Ora, Mode::IndX, 6)),
            0x11 => Some((Op::Ora, Mode::IndY, 5)),
            0x29 => Some((Op::And, Mode::Imm, 2)),
            0x25 => Some((Op::And, Mode::Zp, 3)),
            0x35 => Some((Op::And, Mode::ZpX, 4)),
            0x2D => Some((Op::And, Mode::Abs, 4)),
            0x3D => Some((Op::And, Mode::AbsX, 4)),
            0x39 => Some((Op::And, Mode::AbsY, 4)),
            0x21 => Some((Op::And, Mode::IndX, 6)),
            0x31 => Some((Op::And, Mode::IndY, 5)),
            0x49 => Some((Op::Eor, Mode::Imm, 2)),
            0x45 => Some((Op::Eor, Mode::Zp, 3)),
            0x55 => Some((Op::Eor, Mode::ZpX, 4)),
            0x4D => Some((Op::Eor, Mode::Abs, 4)),
            0x5D => Some((Op::Eor, Mode::AbsX, 4)),
            0x59 => Some((Op::Eor, Mode::AbsY, 4)),
            0x41 => Some((Op::Eor, Mode::IndX, 6)),
            0x51 => Some((Op::Eor, Mode::IndY, 5)),
            0x69 => Some((Op::Adc, Mode::Imm, 2)),
            0x65 => Some((Op::Adc, Mode::Zp, 3)),
            0x75 => Some((Op::Adc, Mode::ZpX, 4)),
            0x6D => Some((Op::Adc, Mode::Abs, 4)),
            0x7D => Some((Op::Adc, Mode::AbsX, 4)),
            0x79 => Some((Op::Adc, Mode::AbsY, 4)),
            0x61 => Some((Op::Adc, Mode::IndX, 6)),
            0x71 => Some((Op::Adc, Mode::IndY, 5)),
            0xE9 => Some((Op::Sbc, Mode::Imm, 2)),
            0xE5 => Some((Op::Sbc, Mode::Zp, 3)),
            0xF5 => Some((Op::Sbc, Mode::ZpX, 4)),
            0xED => Some((Op::Sbc, Mode::Abs, 4)),
            0xFD => Some((Op::Sbc, Mode::AbsX, 4)),
            0xF9 => Some((Op::Sbc, Mode::AbsY, 4)),
            0xE1 => Some((Op::Sbc, Mode::IndX, 6)),
            0xF1 => Some((Op::Sbc, Mode::IndY, 5)),
            0xE6 => Some((Op::Inc, Mode::Zp, 5)),
            0xF6 => Some((Op::Inc, Mode::ZpX, 6)),
            0xEE => Some((Op::Inc, Mode::Abs, 6)),
            0xFE => Some((Op::Inc, Mode::AbsX, 7)),
            0xC6 => Some((Op::Dec, Mode::Zp, 5)),
            0xD6 => Some((Op::Dec, Mode::ZpX, 6)),
            0xCE => Some((Op::Dec, Mode::Abs, 6)),
            0xDE => Some((Op::Dec, Mode::AbsX, 7)),
            0x4A => Some((Op::LsrA, Mode::Implied, 2)),
            0x46 => Some((Op::Lsr, Mode::Zp, 5)),
            0x56 => Some((Op::Lsr, Mode::ZpX, 6)),
            0x4E => Some((Op::Lsr, Mode::Abs, 6)),
            0x5E => Some((Op::Lsr, Mode::AbsX, 7)),
            0x0A => Some((Op::AslA, Mode::Implied, 2)),
            0x06 => Some((Op::Asl, Mode::Zp, 5)),
            0x16 => Some((Op::Asl, Mode::ZpX, 6)),
            0x0E => Some((Op::Asl, Mode::Abs, 6)),
            0x1E => Some((Op::Asl, Mode::AbsX, 7)),
            0x2A => Some((Op::RolA, Mode::Implied, 2)),
            0x26 => Some((Op::Rol, Mode::Zp, 5)),
            0x36 => Some((Op::Rol, Mode::ZpX, 6)),
            0x2E => Some((Op::Rol, Mode::Abs, 6)),
            0x3E => Some((Op::Rol, Mode::AbsX, 7)),
            0x6A => Some((Op::RorA, Mode::Implied, 2)),
            0x66 => Some((Op::Ror, Mode::Zp, 5)),
            0x76 => Some((Op::Ror, Mode::ZpX, 6)),
            0x6E => Some((Op::Ror, Mode::Abs, 6)),
            0x7E => Some((Op::Ror, Mode::AbsX, 7)),
            0x48 => Some((Op::Pha, Mode::Implied, 3)),
            0x68 => Some((Op::Pla, Mode::Implied, 4)),
            0x08 => Some((Op::Php, Mode::Implied, 3)),
            0x28 => Some((Op::Plp, Mode::Implied, 4)),
            0xEA => Some((Op::Nop, Mode::Implied, 2)),
            _ => None,
        }
    }

    fn exec_read<B: Bus>(&mut self, bus: &mut B, op: Op, mode: Mode, base: u32) -> (n: u32)
        requires
            B::inv(old(bus)@),
            base <= 6,
        ensures
            B::inv(final(bus)@),
            (*final(self), final(bus)@, n) == read_sem::<B>(op, mode, base, *old(self), old(bus)@),
    {
        reveal(read_sem);
        let (v, crossed) = self.operand(bus, mode);
        match op {
            Op::Load(r) => {
                self.set_reg(r, v);
                self.set_zn(v);
            },
            Op::Compare(r) => {
                let rv = self.get_reg(r);
                self.compare(rv, v);
            },
            Op::Ora => {
                self.a = self.a | v;
                self.set_zn(self.a);
            },
            Op::And => {
                self.a = self.a & v;
                self.set_zn(self.a);
            },
            Op::Eor => {
                self.a = self.a ^ v;
                self.set_zn(self.a);
            },
            Op::Adc => self.adc(v),
            Op::Sbc => self.sbc(v),
            _ => {
                self.p = with_bit_x(self.p, FLAG_Z, self.a & v == 0);
                self.p = with_bit_x(self.p, FLAG_V, v & 0x40 != 0);
                self.p = with_bit_x(self.p, FLAG_N, v >= 0x80);
            },
        }
        if crossed {
            base + 1
        } else {
            base
        }
    }

    fn exec_write<B: Bus>(&mut self, bus: &mut B, op: Op, mode: Mode, base: u32) -> (n: u32)
        requires
            B::inv(old(bus)@),
            op is Store || op is Asl || op is Lsr || op is Rol || op is Ror || op is Inc || op is Dec,
        ensures
            B::inv(final(bus)@),
            (*final(self), final(bus)@, n) == write_sem::<B>(op, mode, base, *old(self), old(bus)@),
    {
        reveal(write_sem);
        let (addr, _) = self.address(bus, mode);
        if let Op::Store(r) = op {
            let v = self.get_reg(r);
            bus.write(addr, v);
        } else {
            let v = bus.read(addr);
            let r = self.modify_val(op, v);
            bus.write(addr, r);
        }
        base
    }

    #[verifier::spinoff_prover]
    #[verifier::rlimit(90)]
    fn exec_implied(&mut self, op: Op)
        ensures
            *final(self) == implied_sem(op, *old(self)),
    {
        reveal(implied_sem);
        match op {
            Op::AslA => self.a = self.asl_val(self.a),
            Op::LsrA => self.a = self.lsr_val(self.a),
            Op::RolA => self.a = self.rol_val(self.a),
            Op::RorA => self.a = self.ror_val(self.a),
            Op::Transfer(s, d) => {
                let v = self.get_reg(s);
                self.set_reg(d, v);
                self.set_zn(v);
            },
            Op::Txs => self.sp = self.x,
            Op::IncReg(r) => {
                let v = self.get_reg(r).wrapping_add(1);
                self.set_reg(r, v);
                self.set_zn(v);
            },
            Op::DecReg(r) => {
                let v = self.get_reg(r).wrapping_sub(1);
                self.set_reg(r, v);
                self.set_zn(v);
            },
            Op::Flag(mask, on) => self.p = with_bit_x(self.p, mask, on),
            _ => {},
        }
    }

    #[verifier::rlimit(40)]
    fn exec_flow<B: Bus>(&mut self, bus: &mut B, op: Op, base: u32) -> (n: u32)
        requires
            B::inv(old(bus)@),
        ensures
            B::inv(final(bus)@),
            (*final(self), final(bus)@, n) == flow_sem::<B>(op, base, *old(self), old(bus)@),
    {
        reveal(flow_sem);
        match op {
            Op::Branch(mask, set) => {
                let taken = (self.p & mask != 0) == set;
                self.branch(bus, taken)
            },
            Op::Jsr => {
                let dest = self.fetch_u16(bus);
                let ret = self.pc.wrapping_sub(1);
                self.push(bus, (ret / 256) as u8);
                self.push(bus, (ret % 256) as u8);
                self.pc = dest;
                base
            },
            Op::Rts => {
                let lo = self.pop(bus);
                let hi = self.pop(bus);
                self.pc = ((hi as u16) * 256 + lo as u16).wrapping_add(1);
                base
            },
            Op::Rti => {
                let p = self.pop(bus);
                self.p = (p & !FLAG_B) | FLAG_U;
                let lo = self.pop(bus);
                let hi = self.pop(bus);
                self.pc = (hi as u16) * 256 + lo as u16;
                base
            },
            Op::Jmp => {
                self.pc = self.fetch_u16(bus);
                base
            },
            Op::JmpInd => {
                let ptr = self.fetch_u16(bus);
                let lo = bus.read(ptr);
                let hi_addr = if ptr % 256 == 0xFF {
                    ptr - 0xFF
                } else {
                    ptr.wrapping_add(1)
                };
                let hi = bus.read(hi_addr);
                self.pc = (hi as u16) * 256 + lo as u16;
                base
            },
            Op::Pha => {
                self.push(bus, self.a);
                base
            },
            Op::Pla => {
                self.a = self.pop(bus);
                self.set_zn(self.a);
                base
            },
            Op::Php => {
                self.push(bus, self.p | FLAG_B | FLAG_U);
                base
            },
            _ => {
                let p = self.pop(bus);
                self.p = (p & !FLAG_B) | FLAG_U;
                base
            },
        }
    }

    /// Runs one instruction and returns the cycles it took: 0 for an opcode
    /// outside the table, which the machine treats as a crash.
    pub fn step<B: Bus>(&mut self, bus: &mut B) -> (n: u32)
        requires
            B::inv(old(bus)@),
        ensures
            B::inv(final(bus)@),
            (*final(self), final(bus)@, n) == step_sem::<B>(*old(self), old(bus)@),
    {
        let op = self.fetch(bus);
        match Self::decode_op(op) {
            None => 0,
            Some((o, mode, base)) => match o {
                Op::Load(_) | Op::Compare(_) | Op::Ora | Op::And | Op::Eor | Op::Adc | Op::Sbc
                | Op::Bit => self.exec_read(bus, o, mode, base),
                Op::Store(_) | Op::Asl | Op::Lsr | Op::Rol | Op::Ror | Op::Inc | Op::Dec => {
                    self.exec_write(bus, o, mode, base)
                },
                Op::AslA | Op::LsrA | Op::RolA | Op::RorA | Op::Transfer(_, _) | Op::Txs | Op::IncReg(_)
                | Op::DecReg(_) | Op::Flag(_, _) | Op::Nop => {
                    self.exec_implied(o);
                    base
                },
                _ => self.exec_flow(bus, o, base),
            },
        }
    }
}


// ---------------------------------------------------------------------------
// Laws
// ---------------------------------------------------------------------------
proof fn lemma_decode_cycles(op: u8)
    ensures
        decode(op) matches Some((o, _, b)) ==> 2 <= b <= 7 && (o is Load || o is Compare || o is Ora
            || o is And || o is Eor || o is Adc || o is Sbc || o is Bit ==> b <= 6),
{
}

/// An instruction takes from 2 to 7 cycles; it takes 0 exactly when its
/// opcode is outside the table.
pub proof fn lemma_step_cycles<B: Bus>(cpu: Cpu, m: B::V)
    ensures
        ({
            let op = fetch_spec::<B>(cpu, m).2;
            let n = step_sem::<B>(cpu, m).2;
            &&& n == 0 <==> decode(op) is None
            &&& decode(op) is Some ==> 2 <= n <= 7
        }),
{
    reveal(read_sem);
    reveal(write_sem);
    reveal(flow_sem);
    let op = fetch_spec::<B>(cpu, m).2;
    lemma_decode_cycles(op);
}


/// Whether a status byte has bit 5 set and the B bit (4) clear, as every
/// status this processor holds does.
pub open spec fn status_ok(p: u8) -> bool {
    p & 0x30 == 0x20
}

proof fn lemma_with_bit_status(p: u8, mask: u8, on: bool)
    requires
        status_ok(p),
        mask == FLAG_C || mask == FLAG_Z || mask == FLAG_I || mask == FLAG_D || mask == FLAG_V
            || mask == FLAG_N,
    ensures
        status_ok(with_bit(p, mask, on)),
{
    reveal(with_bit);
    assert(p & 0x30 == 0x20 && (mask == 1 || mask == 2 || mask == 4 || mask == 8 || mask == 0x40
        || mask == 0x80) ==> (p | mask) & 0x30 == 0x20 && (p & !mask) & 0x30 == 0x20)
        by (bit_vector);
}

proof fn lemma_zn_status(p: u8, v: u8)
    requires
        status_ok(p),
    ensures
        status_ok(zn(p, v)),
{
    lemma_with_bit_status(p, FLAG_Z, v == 0);
    lemma_with_bit_status(with_bit(p, FLAG_Z, v == 0), FLAG_N, v >= 0x80);
}

proof fn lemma_pulled_status(v: u8)
    ensures
        status_ok((v & !FLAG_B) | FLAG_U),
{
    assert(((v & !0x10u8) | 0x20u8) & 0x30 == 0x20) by (bit_vector);
}

proof fn lemma_modify_status(op: Op, v: u8, p: u8)
    requires
        status_ok(p),
    ensures
        status_ok(modify(op, v, p).1),
{
    let r = modify(op, v, p).0;
    match op {
        Op::Inc => lemma_zn_status(p, r),
        Op::Dec => lemma_zn_status(p, r),
        _ => {
            let c = p & FLAG_C != 0;
            let carry = match op {
                Op::Asl => v >= 0x80,
                Op::Lsr => v % 2 == 1,
                Op::Rol => v >= 0x80,
                _ => v % 2 == 1,
            };
            lemma_with_bit_status(p, FLAG_C, carry);
            lemma_zn_status(with_bit(p, FLAG_C, carry), r);
        },
    }
}

proof fn lemma_read_status<B: Bus>(op: Op, mode: Mode, base: u32, cpu: Cpu, m: B::V)
    requires
        status_ok(cpu.p),
    ensures
        status_ok(read_sem::<B>(op, mode, base, cpu, m).0.p),
{
    reveal(read_sem);
    let (c1, m1, v, crossed) = operand_spec::<B>(mode, cpu, m);
    assert(c1.p == cpu.p);
    let p = cpu.p;
    match op {
        Op::Load(_) => lemma_zn_status(p, v),
        Op::Compare(r) => {
            let x = reg(c1, r);
            lemma_with_bit_status(p, FLAG_C, x >= v);
            lemma_with_bit_status(with_bit(p, FLAG_C, x >= v), FLAG_Z, x == v);
            lemma_with_bit_status(
                with_bit(with_bit(p, FLAG_C, x >= v), FLAG_Z, x == v),
                FLAG_N,
                wadd8(x, -(v as int)) >= 0x80,
            );
        },
        Op::Ora => lemma_zn_status(p, c1.a | v),
        Op::And => lemma_zn_status(p, c1.a & v),
        Op::Eor => lemma_zn_status(p, c1.a ^ v),
        Op::Adc => {
            let sum = c1.a as int + v as int + if p & FLAG_C != 0 {
                1int
            } else {
                0
            };
            let r = (sum % 256) as u8;
            let ovf = (c1.a >= 0x80) == (v >= 0x80) && (r >= 0x80) != (c1.a >= 0x80);
            lemma_with_bit_status(p, FLAG_C, sum > 0xFF);
            lemma_with_bit_status(with_bit(p, FLAG_C, sum > 0xFF), FLAG_V, ovf);
            lemma_zn_status(with_bit(with_bit(p, FLAG_C, sum > 0xFF), FLAG_V, ovf), r);
        },
        Op::Sbc => {
            let diff = c1.a as int - v as int - if p & FLAG_C != 0 {
                0int
            } else {
                1
            };
            let r = (diff % 256) as u8;
            let ovf = (c1.a >= 0x80) != (v >= 0x80) && (r >= 0x80) != (c1.a >= 0x80);
            lemma_with_bit_status(p, FLAG_C, diff >= 0);
            lemma_with_bit_status(with_bit(p, FLAG_C, diff >= 0), FLAG_V, ovf);
            lemma_zn_status(with_bit(with_bit(p, FLAG_C, diff >= 0), FLAG_V, ovf), r);
        },
        _ => {
            lemma_with_bit_status(p, FLAG_Z, c1.a & v == 0);
            lemma_with_bit_status(with_bit(p, FLAG_Z, c1.a & v == 0), FLAG_V, v & 0x40 != 0);
            lemma_with_bit_status(
                with_bit(with_bit(p, FLAG_Z, c1.a & v == 0), FLAG_V, v & 0x40 != 0),
                FLAG_N,
                v >= 0x80,
            );
        },
    }
}

proof fn lemma_write_status<B: Bus>(op: Op, mode: Mode, base: u32, cpu: Cpu, m: B::V)
    requires
        status_ok(cpu.p),
    ensures
        status_ok(write_sem::<B>(op, mode, base, cpu, m).0.p),
{
    reveal(write_sem);
    let (c1, m1, addr, _) = address_spec::<B>(mode, cpu, m);
    assert(c1.p == cpu.p);
    let (m2, v) = B::read_spec(m1, addr);
    lemma_modify_status(op, v, c1.p);
}

proof fn lemma_flow_status<B: Bus>(op: Op, base: u32, cpu: Cpu, m: B::V)
    requires
        status_ok(cpu.p),
    ensures
        status_ok(flow_sem::<B>(op, base, cpu, m).0.p),
{
    reveal(flow_sem);
    match op {
        Op::Rti => {
            let (c1, m1, p) = pop_spec::<B>(cpu, m);
            lemma_pulled_status(p);
        },
        Op::Pla => {
            let (c1, m1, v) = pop_spec::<B>(cpu, m);
            lemma_zn_status(c1.p, v);
        },
        Op::Plp => {
            let (c1, m1, v) = pop_spec::<B>(cpu, m);
            lemma_pulled_status(v);
        },
        Op::Branch(mask, set) => {
            let taken = (cpu.p & mask != 0) == set;
            assert(branch_spec::<B>(cpu, m, taken).0.p == cpu.p);
        },
        Op::Jsr => {
            let (c1, m1, dest) = fetch16_spec::<B>(cpu, m);
            let ret = wadd16(c1.pc, -1);
            let (c2, m2) = push_spec::<B>(c1, m1, hi_byte(ret));
            let (c3, m3) = push_spec::<B>(c2, m2, lo_byte(ret));
            assert(c3.p == cpu.p);
        },
        Op::Rts => {
            let (c1, m1, lo) = pop_spec::<B>(cpu, m);
            let (c2, m2, hi) = pop_spec::<B>(c1, m1);
            assert(c2.p == cpu.p);
        },
        Op::Jmp | Op::JmpInd => {
            let (c1, m1, dest) = fetch16_spec::<B>(cpu, m);
            assert(c1.p == cpu.p);
        },
        _ => {
            assert(push_spec::<B>(cpu, m, cpu.a).0.p == cpu.p);
            assert(push_spec::<B>(cpu, m, cpu.p | FLAG_B | FLAG_U).0.p == cpu.p);
            let (c1, m1, v) = pop_spec::<B>(cpu, m);
            lemma_pulled_status(v);
        },
    }
}

/// Every instruction keeps bit 5 of the status set and the B bit clear:
/// starting from such a status (as `new`, `reset` and `reset_at` leave
/// it), the processor never holds another kind.
pub proof fn lemma_step_status<B: Bus>(cpu: Cpu, m: B::V)
    requires
        status_ok(cpu.p),
    ensures
        status_ok(step_sem::<B>(cpu, m).0.p),
{
    let (c1, m1, op) = fetch_spec::<B>(cpu, m);
    match decode(op) {
        Some((o, mode, base)) => {
            match o {
                Op::Load(_) | Op::Compare(_) | Op::Ora | Op::And | Op::Eor | Op::Adc | Op::Sbc
                | Op::Bit => lemma_read_status::<B>(o, mode, base, c1, m1),
                Op::Store(_) | Op::Asl | Op::Lsr | Op::Rol | Op::Ror | Op::Inc | Op::Dec => {
                    lemma_write_status::<B>(o, mode, base, c1, m1)
                },
                Op::AslA | Op::LsrA | Op::RolA | Op::RorA | Op::Transfer(_, _) | Op::Txs | Op::IncReg(_)
                | Op::DecReg(_) | Op::Flag(_, _) | Op::Nop => {
                    reveal(implied_sem);
                    let p = c1.p;
                    match o {
                        Op::AslA => lemma_modify_status(Op::Asl, c1.a, p),
                        Op::LsrA => lemma_modify_status(Op::Lsr, c1.a, p),
                        Op::RolA => lemma_modify_status(Op::Rol, c1.a, p),
                        Op::RorA => lemma_modify_status(Op::Ror, c1.a, p),
                        Op::Transfer(s, _) => lemma_zn_status(p, reg(c1, s)),
                        Op::IncReg(r) => lemma_zn_status(p, wadd8(reg(c1, r), 1)),
                        Op::DecReg(r) => lemma_zn_status(p, wadd8(reg(c1, r), -1)),
                        Op::Flag(mask, on) => lemma_with_bit_status(p, mask, on),
                        _ => {},
                    }
                },
                _ => lemma_flow_status::<B>(o, base, c1, m1),
            }
        },
        None => {},
    }
}

/// A bus on which a read changes nothing and gives back the last byte
/// written to the same address.
pub open spec fn ram_like<B: Bus>() -> bool {
    &&& forall|m: B::V, a: u16| #[trigger] B::read_spec(m, a).0 == m
    &&& forall|m: B::V, a: u16, v: u8| #[trigger] B::read_spec(B::write_spec(m, a, v), a).1 == v
    &&& forall|m: B::V, a: u16, b: u16, v: u8|
        a != b ==> #[trigger] B::read_spec(B::write_spec(m, a, v), b).1 == B::read_spec(m, b).1
}

/// On a RAM-like bus, `JSR dest` followed by the `RTS` at `dest` returns to
/// the instruction after the `JSR`: the first step pushes the address of
/// its last byte (high byte first) and jumps, the second pops it and goes
/// on one past it; each takes 6 cycles, and A, X, Y, P and finally SP are
/// as before. The two stack bytes must not be the `RTS` itself.
#[verifier::spinoff_prover]
#[verifier::rlimit(60)]
pub proof fn lemma_jsr_then_rts<B: Bus>(cpu: Cpu, m: B::V)
    requires
        ram_like::<B>(),
        B::read_spec(m, cpu.pc).1 == 0x20,
        B::read_spec(m, word(B::read_spec(m, wadd16(cpu.pc, 2)).1, B::read_spec(m, wadd16(cpu.pc, 1)).1)).1
            == 0x60,
        (0x100 + cpu.sp) as u16 != word(
            B::read_spec(m, wadd16(cpu.pc, 2)).1,
            B::read_spec(m, wadd16(cpu.pc, 1)).1,
        ),
        (0x100 + wadd8(cpu.sp, -1)) as u16 != word(
            B::read_spec(m, wadd16(cpu.pc, 2)).1,
            B::read_spec(m, wadd16(cpu.pc, 1)).1,
        ),
    ensures
        ({
            let dest = word(B::read_spec(m, wadd16(cpu.pc, 2)).1, B::read_spec(m, wadd16(cpu.pc, 1)).1);
            let ret = wadd16(cpu.pc, 2);
            let (c1, m1, n1) = step_sem::<B>(cpu, m);
            let (c2, m2, n2) = step_sem::<B>(c1, m1);
            &&& n1 == 6 && c1.pc == dest && c1.sp == wadd8(cpu.sp, -2)
            &&& B::read_spec(m1, (0x100 + cpu.sp) as u16).1 == hi_byte(ret)
            &&& B::read_spec(m1, (0x100 + wadd8(cpu.sp, -1)) as u16).1 == lo_byte(ret)
            &&& n2 == 6 && c2.pc == wadd16(cpu.pc, 3) && c2.sp == cpu.sp
            &&& c1.a == cpu.a && c1.x == cpu.x && c1.y == cpu.y && c1.p == cpu.p
            &&& c2.a == cpu.a && c2.x == cpu.x && c2.y == cpu.y && c2.p == cpu.p
        }),
{
    reveal(flow_sem);
    let lo = B::read_spec(m, wadd16(cpu.pc, 1)).1;
    let hi = B::read_spec(m, wadd16(cpu.pc, 2)).1;
    let dest = word(hi, lo);
    let ret = wadd16(cpu.pc, 2);
    let s1 = (0x100 + cpu.sp) as u16;
    let s2 = (0x100 + wadd8(cpu.sp, -1)) as u16;
    assert(s1 != s2);
    let (c0, m0, op) = fetch_spec::<B>(cpu, m);
    assert(m0 == m && op == 0x20);
    let (cf, mf, d) = fetch16_spec::<B>(c0, m0);
    assert(mf == m && d == dest && cf.pc == wadd16(cpu.pc, 3));
    assert(wadd16(cf.pc, -1) == ret);
    let m1a = B::write_spec(m, s1, hi_byte(ret));
    let m1 = B::write_spec(m1a, s2, lo_byte(ret));
    assert(step_sem::<B>(cpu, m).1 == m1);
    assert(B::read_spec(m1, s2).1 == lo_byte(ret));
    assert(B::read_spec(m1, s1).1 == B::read_spec(m1a, s1).1);
    assert(B::read_spec(m1, dest).1 == B::read_spec(m1a, dest).1);
    assert(B::read_spec(m1a, dest).1 == B::read_spec(m, dest).1);
    let c1 = step_sem::<B>(cpu, m).0;
    assert(c1.pc == dest);
    let sp2 = wadd8(cpu.sp, -2);
    assert(wadd8(sp2, 1) == wadd8(cpu.sp, -1));
    assert(wadd8(wadd8(sp2, 1), 1) == cpu.sp);
    assert(word(hi_byte(ret), lo_byte(ret)) == ret);
}

/// On a RAM-like bus, `RTI` (0x40) pulls the status from the first stack
/// byte above SP (B cleared, bit 5 set), then PC from the next two (low
/// byte first); SP moves up by three, A, X and Y are kept and nothing is
/// written.
#[verifier::spinoff_prover]
#[verifier::rlimit(60)]
pub proof fn lemma_rti<B: Bus>(cpu: Cpu, m: B::V)
    requires
        ram_like::<B>(),
        B::read_spec(m, cpu.pc).1 == 0x40,
    ensures
        ({
            let (c1, m1, n) = step_sem::<B>(cpu, m);
            let s1 = (0x100 + wadd8(cpu.sp, 1)) as u16;
            let s2 = (0x100 + wadd8(cpu.sp, 2)) as u16;
            let s3 = (0x100 + wadd8(cpu.sp, 3)) as u16;
            &&& c1.p == (B::read_spec(m, s1).1 & !0x10u8) | 0x20
            &&& c1.pc == word(B::read_spec(m, s3).1, B::read_spec(m, s2).1)
            &&& c1.sp == wadd8(cpu.sp, 3)
            &&& c1.a == cpu.a && c1.x == cpu.x && c1.y == cpu.y
            &&& m1 == m
            &&& n == 7
        }),
{
    reveal(flow_sem);
    assert(FLAG_B == 0x10 && FLAG_U == 0x20);
    assert(wadd8(wadd8(cpu.sp, 1), 1) == wadd8(cpu.sp, 2));
    assert(wadd8(wadd8(cpu.sp, 2), 1) == wadd8(cpu.sp, 3));
}

/// Whether the branch opcode `op` (0x10, 0x30, ..., 0xF0) is taken with
/// status `p`: bits 6-7 of the opcode pick the flag (N, V, C, Z) and bit 5
/// says whether the branch wants it set or clear.
pub open spec fn branch_condition(op: u8, p: u8) -> bool {
    let sel = op / 64;
    let bit: u8 = if sel == 0 {
        0x80
    } else if sel == 1 {
        0x40
    } else if sel == 2 {
        0x01
    } else {
        0x02
    };
    (p & bit != 0) == (op & 0x20 != 0)
}

/// On a RAM-like bus, a relative branch (BPL, BMI, BVC, BVS, BCC, BCS, BNE,
/// BEQ) goes to the address after its two bytes plus the signed offset
/// exactly when its flag condition holds, in 3 cycles, or 4 when that lands
/// on another page; otherwise it goes on after its two bytes in 2 cycles.
/// Nothing else changes.
#[verifier::spinoff_prover]
#[verifier::rlimit(60)]
pub proof fn lemma_branch<B: Bus>(cpu: Cpu, m: B::V)
    requires
        ram_like::<B>(),
        B::read_spec(m, cpu.pc).1 % 32 == 0x10,
    ensures
        ({
            let op = B::read_spec(m, cpu.pc).1;
            let next = wadd16(cpu.pc, 2);
            let dest = wadd16(next, signed8(B::read_spec(m, wadd16(cpu.pc, 1)).1));
            let taken = branch_condition(op, cpu.p);
            let (c1, m1, n) = step_sem::<B>(cpu, m);
            &&& m1 == m
            &&& c1 == (Cpu {
                pc: if taken {
                    dest
                } else {
                    next
                },
                ..cpu
            })
            &&& n == (if !taken {
                2u32
            } else if hi_byte(next) != hi_byte(dest) {
                4u32
            } else {
                3u32
            })
        }),
{
    reveal(flow_sem);
    lemma_wadd16_twice(cpu.pc, 1, 1);
    let op = B::read_spec(m, cpu.pc).1;
    assert(op == 0x10 || op == 0x30 || op == 0x50 || op == 0x70 || op == 0x90 || op == 0xB0 || op
        == 0xD0 || op == 0xF0);
    assert(FLAG_N == 0x80 && FLAG_V == 0x40 && FLAG_C == 0x01 && FLAG_Z == 0x02);
    assert(0x10u8 & 0x20 == 0 && 0x30u8 & 0x20 != 0 && 0x50u8 & 0x20 == 0 && 0x70u8 & 0x20 != 0
        && 0x90u8 & 0x20 == 0 && 0xB0u8 & 0x20 != 0 && 0xD0u8 & 0x20 == 0 && 0xF0u8 & 0x20 != 0)
        by (bit_vector);
    let (c0, m0, o) = fetch_spec::<B>(cpu, m);
    assert(m0 == m && o == op && c0.pc == wadd16(cpu.pc, 1));
    let (c1, m1, off) = fetch_spec::<B>(c0, m0);
    assert(m1 == m && c1.pc == wadd16(cpu.pc, 2));
}

/// The value of a byte read as a two's-complement number.
pub open spec fn signed_value(b: u8) -> int {
    if b < 128 {
        b as int
    } else {
        b as int - 256
    }
}

/// Setting C, V, Z and N one after the other gives those four flags and
/// keeps the other bits.
proof fn lemma_cvzn_bits(p: u8, c: bool, v: bool, z: bool, n: bool)
    by (bit_vector)
    ensures
        ({
            let x1: u8 = if c { p | 0x01 } else { p & !0x01u8 };
            let x2: u8 = if v { x1 | 0x40 } else { x1 & !0x40u8 };
            let x3: u8 = if z { x2 | 0x02 } else { x2 & !0x02u8 };
            let x4: u8 = if n { x3 | 0x80 } else { x3 & !0x80u8 };
            &&& (x4 & 0x01 != 0) == c
            &&& (x4 & 0x40 != 0) == v
            &&& (x4 & 0x02 != 0) == z
            &&& (x4 & 0x80 != 0) == n
            &&& x4 & 0x3C == p & 0x3C
        }),
{
}

/// Setting C, Z and N one after the other gives those three flags and
/// keeps the other bits.
proof fn lemma_czn_bits(p: u8, c: bool, z: bool, n: bool)
    by (bit_vector)
    ensures
        ({
            let x1: u8 = if c { p | 0x01 } else { p & !0x01u8 };
            let x2: u8 = if z { x1 | 0x02 } else { x1 & !0x02u8 };
            let x3: u8 = if n { x2 | 0x80 } else { x2 & !0x80u8 };
            &&& (x3 & 0x01 != 0) == c
            &&& (x3 & 0x02 != 0) == z
            &&& (x3 & 0x80 != 0) == n
            &&& x3 & 0x7C == p & 0x7C
        }),
        (p | 0x01) & 0x01 != 0,
{
}

/// `ADC`: the result and the carry out together are the sum of A, the
/// operand and the carry in; V says the signed sum left -128..=127; Z and N
/// describe the result; I, D, B and bit 5 are kept.
pub proof fn lemma_adc_arith(a: u8, v: u8, p: u8)
    ensures
        ({
            let (r, q) = adc_spec(a, v, p);
            let cin: int = if p & 0x01 != 0 {
                1
            } else {
                0
            };
            let cout: int = if q & 0x01 != 0 {
                1
            } else {
                0
            };
            let s = signed_value(a) + signed_value(v) + cin;
            &&& r as int + 256 * cout == a as int + v as int + cin
            &&& (q & 0x40 != 0) == (s < -128 || s > 127)
            &&& (q & 0x02 != 0) == (r == 0)
            &&& (q & 0x80 != 0) == (r >= 0x80)
            &&& q & 0x3C == p & 0x3C
        }),
{
    reveal(with_bit);
    let sum = a as int + v as int + if p & FLAG_C != 0 {
        1int
    } else {
        0
    };
    let r = (sum % 256) as u8;
    let ovf = (a >= 0x80) == (v >= 0x80) && (r >= 0x80) != (a >= 0x80);
    lemma_cvzn_bits(p, sum > 0xFF, ovf, r == 0, r >= 0x80);
}

/// `SBC` is `ADC` of the operand's complement: the 6502 subtracts by adding
/// the ones' complement with the carry as "no borrow".
pub proof fn lemma_sbc_is_adc_of_complement(a: u8, v: u8, p: u8)
    ensures
        sbc_spec(a, v, p) == adc_spec(a, !v, p),
{
    assert(!v == 255 - v) by (bit_vector);
}

/// `CMP`, `CPX` and `CPY` set C, Z and N as a subtraction with the carry
/// set would (without storing its result), and keep the other flags.
pub proof fn lemma_compare_is_subtraction(r: u8, v: u8, p: u8)
    ensures
        ({
            let q = compare_spec(r, v, p);
            let s = sbc_spec(r, v, p | 0x01).1;
            &&& (q & 0x01 != 0) == (s & 0x01 != 0)
            &&& (q & 0x02 != 0) == (s & 0x02 != 0)
            &&& (q & 0x80 != 0) == (s & 0x80 != 0)
            &&& q & 0x7C == p & 0x7C
        }),
{
    reveal(with_bit);
    let pc = p | 0x01;
    let d = (r as int - v as int) % 256;
    let c = r >= v;
    let z = r == v;
    let n = (d as u8) >= 0x80;
    let ovf = (r >= 0x80) != (v >= 0x80) && ((d as u8) >= 0x80) != (r >= 0x80);
    lemma_czn_bits(p, c, z, n);
    lemma_cvzn_bits(pc, c, ovf, d as u8 == 0, n);
}

/// `ROR` undoes `ROL`: rotating left through the carry and then right
/// gives back the byte and the carry.
pub proof fn lemma_ror_undoes_rol(v: u8, p: u8)
    ensures
        ({
            let (r1, p1) = modify(Op::Rol, v, p);
            let (r2, p2) = modify(Op::Ror, r1, p1);
            r2 == v && (p2 & 0x01 != 0) == (p & 0x01 != 0)
        }),
{
    reveal(with_bit);
    let c = p & FLAG_C != 0;
    let r1 = ((v as int * 2 + if c {
        1int
    } else {
        0
    }) % 256) as u8;
    let c1 = v >= 0x80;
    lemma_czn_bits(p, c1, r1 == 0, r1 >= 0x80);
    let p1 = modify(Op::Rol, v, p).1;
    let r2 = (r1 / 2 + if c1 {
        0x80u8
    } else {
        0
    }) as u8;
    assert(r2 == v);
    lemma_czn_bits(p1, r1 % 2 == 1, r2 == 0, r2 >= 0x80);
}

} // verus!
