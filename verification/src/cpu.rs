//! The Game Boy (SM83) processor: registers, flags and one-instruction
//! execution against a memory bus.
use vstd::prelude::*;
use vstd::arithmetic::div_mod::lemma_add_mod_noop_right;

verus! {

pub const Z_FLAG: u8 = 0b1000_0000;

pub const N_FLAG: u8 = 0b0100_0000;

pub const H_FLAG: u8 = 0b0010_0000;

pub const C_FLAG: u8 = 0b0001_0000;

/// A Game Boy memory bus as seen by the processor: a byte read that does not
/// change the bus, and a byte write.
pub trait GbBus: View + Sized {
    /// The byte that a read of `addr` returns on a bus in state `m`.
    spec fn peek(m: Self::V, addr: u16) -> u8;

    /// The state of the bus after writing `value` to `addr` in state `m`.
    spec fn poke(m: Self::V, addr: u16, value: u8) -> Self::V;

    fn read_byte(&self, addr: u16) -> (r: u8)
        ensures
            r == Self::peek(self@, addr),
    ;

    fn write_byte(&mut self, addr: u16, value: u8)
        ensures
            final(self)@ == Self::poke(old(self)@, addr, value),
    ;
}

pub struct Cpu {
    pub a: u8,
    pub f: u8,
    pub b: u8,
    pub c: u8,
    pub d: u8,
    pub e: u8,
    pub h: u8,
    pub l: u8,
    pub pc: u16,
    pub sp: u16,
    pub ime: bool,
    pub last_rom_pc: u16,
}

// ---------------------------------------------------------------------------
// Arithmetic on bytes and words
// ---------------------------------------------------------------------------
/// The 16-bit word with high byte `hi` and low byte `lo`.
pub open spec fn word(hi: u8, lo: u8) -> u16 {
    (hi as int * 256 + lo as int) as u16
}

pub open spec fn hi_byte(v: u16) -> u8 {
    (v as int / 256) as u8
}

pub open spec fn lo_byte(v: u16) -> u8 {
    (v as int % 256) as u8
}

/// `x + y` modulo 2^16 (`y` may be negative).
pub open spec fn wadd16(x: u16, y: int) -> u16 {
    ((x as int + y) % 65536) as u16
}

/// `x + y` modulo 2^8 (`y` may be negative).
pub open spec fn wadd8(x: u8, y: int) -> u8 {
    ((x as int + y) % 256) as u8
}

/// A byte read as a two's-complement signed offset.
pub open spec fn signed8(b: u8) -> int {
    if b < 128 {
        b as int
    } else {
        b as int - 256
    }
}

/// The byte with its two nibbles exchanged.
pub open spec fn swap_nibbles(v: u8) -> u8 {
    ((v as int % 16) * 16 + v as int / 16) as u8
}

// ---------------------------------------------------------------------------
// Flags
// ---------------------------------------------------------------------------
#[verifier::opaque]
pub open spec fn with_bit(f: u8, mask: u8, on: bool) -> u8 {
    if on {
        f | mask
    } else {
        f & !mask
    }
}

/// The flag register with exactly the given flags set (low nibble zero).
#[verifier::opaque]
pub open spec fn flag_byte(z: bool, n: bool, h: bool, c: bool) -> u8 {
    with_bit(with_bit(with_bit(with_bit(0, Z_FLAG, z), N_FLAG, n), H_FLAG, h), C_FLAG, c)
}

pub open spec fn zf(f: u8) -> bool {
    f & Z_FLAG != 0
}

pub open spec fn nf(f: u8) -> bool {
    f & N_FLAG != 0
}

pub open spec fn hf(f: u8) -> bool {
    f & H_FLAG != 0
}

pub open spec fn cf(f: u8) -> bool {
    f & C_FLAG != 0
}

pub open spec fn carry_in(f: u8) -> int {
    if cf(f) {
        1
    } else {
        0
    }
}

/// Result of the eight-bit operation `op` (0 ADD, 1 ADC, 2 SUB, 3 SBC, 4 AND,
/// 5 XOR, 6 OR, 7 CP) on accumulator `a` and operand `v` with flags `f`: the
/// new accumulator and the new flags.
pub open spec fn alu(op: u8, a: u8, v: u8, f: u8) -> (u8, u8) {
    let c = carry_in(f);
    if op == 0 {
        let r = wadd8(a, v as int);
        (r, flag_byte(r == 0, false, a as int % 16 + v as int % 16 > 15, a as int + v as int > 255))
    } else if op == 1 {
        let r = wadd8(a, v as int + c);
        (
            r,
            flag_byte(
                r == 0,
                false,
                a as int % 16 + v as int % 16 + c > 15,
                a as int + v as int + c > 255,
            ),
        )
    } else if op == 2 {
        let r = wadd8(a, -(v as int));
        (r, flag_byte(r == 0, true, a as int % 16 < v as int % 16, a < v))
    } else if op == 3 {
        let r = wadd8(a, -(v as int) - c);
        (r, flag_byte(r == 0, true, a as int % 16 < v as int % 16 + c, a < v as int + c))
    } else if op == 4 {
        let r = a & v;
        (r, flag_byte(r == 0, false, true, false))
    } else if op == 5 {
        let r = a ^ v;
        (r, flag_byte(r == 0, false, false, false))
    } else if op == 6 {
        let r = a | v;
        (r, flag_byte(r == 0, false, false, false))
    } else {
        (a, flag_byte(a == v, true, a as int % 16 < v as int % 16, a < v))
    }
}

/// The decimal adjustment of `a` after a BCD addition or subtraction.
#[verifier::opaque]
pub open spec fn daa(a: u8, f: u8) -> (u8, u8) {
    if !nf(f) {
        let high = cf(f) || a > 0x99;
        let low = hf(f) || a as int % 16 > 9;
        let adjust: int = (if high {
            0x60int
        } else {
            0
        }) + (if low {
            0x06int
        } else {
            0
        });
        let r = wadd8(a, adjust);
        (r, flag_byte(r == 0, false, false, high))
    } else {
        let adjust: int = (if cf(f) {
            0x60int
        } else {
            0
        }) + (if hf(f) {
            0x06int
        } else {
            0
        });
        let r = wadd8(a, -adjust);
        (r, flag_byte(r == 0, true, false, cf(f)))
    }
}

// ---------------------------------------------------------------------------
// Register views
// ---------------------------------------------------------------------------
impl Cpu {
    pub open spec fn bc(self) -> u16 {
        word(self.b, self.c)
    }

    pub open spec fn de(self) -> u16 {
        word(self.d, self.e)
    }

    pub open spec fn hl(self) -> u16 {
        word(self.h, self.l)
    }

    pub open spec fn af(self) -> u16 {
        word(self.a, self.f)
    }

    pub open spec fn with_bc(self, v: u16) -> Cpu {
        Cpu { b: hi_byte(v), c: lo_byte(v), ..self }
    }

    pub open spec fn with_de(self, v: u16) -> Cpu {
        Cpu { d: hi_byte(v), e: lo_byte(v), ..self }
    }

    pub open spec fn with_hl(self, v: u16) -> Cpu {
        Cpu { h: hi_byte(v), l: lo_byte(v), ..self }
    }

    /// Pair `p` (0 BC, 1 DE, 2 HL, 3 SP).
    pub open spec fn pair(self, p: u8) -> u16 {
        if p == 0 {
            self.bc()
        } else if p == 1 {
            self.de()
        } else if p == 2 {
            self.hl()
        } else {
            self.sp
        }
    }

    pub open spec fn with_pair(self, p: u8, v: u16) -> Cpu {
        if p == 0 {
            self.with_bc(v)
        } else if p == 1 {
            self.with_de(v)
        } else if p == 2 {
            self.with_hl(v)
        } else {
            Cpu { sp: v, ..self }
        }
    }

    /// Register `r` (0 B, 1 C, 2 D, 3 E, 4 H, 5 L, 7 A); index 6 stands for
    /// the byte at HL and is read from the bus.
    pub open spec fn reg(self, r: u8) -> u8 {
        if r == 0 {
            self.b
        } else if r == 1 {
            self.c
        } else if r == 2 {
            self.d
        } else if r == 3 {
            self.e
        } else if r == 4 {
            self.h
        } else if r == 5 {
            self.l
        } else {
            self.a
        }
    }

    pub open spec fn with_reg(self, r: u8, v: u8) -> Cpu {
        if r == 0 {
            Cpu { b: v, ..self }
        } else if r == 1 {
            Cpu { c: v, ..self }
        } else if r == 2 {
            Cpu { d: v, ..self }
        } else if r == 3 {
            Cpu { e: v, ..self }
        } else if r == 4 {
            Cpu { h: v, ..self }
        } else if r == 5 {
            Cpu { l: v, ..self }
        } else {
            Cpu { a: v, ..self }
        }
    }
}

// ---------------------------------------------------------------------------
// Instruction semantics
// ---------------------------------------------------------------------------
/// Value of operand `r`: a register, or for `r == 6` the byte at HL.
pub open spec fn operand<B: GbBus>(cpu: Cpu, m: B::V, r: u8) -> u8 {
    if r == 6 {
        B::peek(m, cpu.hl())
    } else {
        cpu.reg(r)
    }
}

/// Store `v` into operand `r`: a register, or for `r == 6` the byte at HL.
pub open spec fn store<B: GbBus>(cpu: Cpu, m: B::V, r: u8, v: u8) -> (Cpu, B::V) {
    if r == 6 {
        (cpu, B::poke(m, cpu.hl(), v))
    } else {
        (cpu.with_reg(r, v), m)
    }
}

/// The byte at PC, and the processor with PC moved past it.
pub open spec fn fetch<B: GbBus>(cpu: Cpu, m: B::V) -> (Cpu, u8) {
    (Cpu { pc: wadd16(cpu.pc, 1), ..cpu }, B::peek(m, cpu.pc))
}

/// The little-endian word at PC, and the processor with PC moved past it.
pub open spec fn fetch16<B: GbBus>(cpu: Cpu, m: B::V) -> (Cpu, u16) {
    let (c1, lo) = fetch::<B>(cpu, m);
    let (c2, hi) = fetch::<B>(c1, m);
    (c2, word(hi, lo))
}

/// Push the bytes `hi` then `lo` below SP.
pub open spec fn push2<B: GbBus>(cpu: Cpu, m: B::V, hi: u8, lo: u8) -> (Cpu, B::V) {
    let sp1 = wadd16(cpu.sp, -1);
    let m1 = B::poke(m, sp1, hi);
    let sp2 = wadd16(sp1, -1);
    (Cpu { sp: sp2, ..cpu }, B::poke(m1, sp2, lo))
}

/// Pop two bytes: the one at SP (low) and the one above it (high).
pub open spec fn pop2<B: GbBus>(cpu: Cpu, m: B::V) -> (Cpu, u8, u8) {
    let lo = B::peek(m, cpu.sp);
    let sp1 = wadd16(cpu.sp, 1);
    let hi = B::peek(m, sp1);
    (Cpu { sp: wadd16(sp1, 1), ..cpu }, hi, lo)
}

/// Whether condition `cc` holds (0 NZ, 1 Z, 2 NC, 3 C, otherwise always).
pub open spec fn cond(f: u8, cc: u8) -> bool {
    if cc == 0 {
        !zf(f)
    } else if cc == 1 {
        zf(f)
    } else if cc == 2 {
        !cf(f)
    } else if cc == 3 {
        cf(f)
    } else {
        true
    }
}

/// `LD dst, src` for an opcode in 0x40..=0x7F other than HALT: destination
/// `(op - 0x40) / 8`, source `op % 8` (6 standing for the byte at HL).
#[verifier::opaque]
pub open spec fn ld8_sem<B: GbBus>(op: u8, cpu: Cpu, m: B::V) -> (Cpu, B::V, u32) {
    let dst = ((op - 0x40) / 8) as u8;
    let src = op % 8;
    let (c1, m1) = store::<B>(cpu, m, dst, operand::<B>(cpu, m, src));
    (c1, m1, if dst == 6 || src == 6 {
        8
    } else {
        4
    })
}

/// Eight-bit arithmetic with operand `r`.
#[verifier::opaque]
pub open spec fn alu_sem<B: GbBus>(op: u8, r: u8, cpu: Cpu, m: B::V) -> (Cpu, B::V, u32) {
    let (a, f) = alu(op, cpu.a, operand::<B>(cpu, m, r), cpu.f);
    (Cpu { a, f, ..cpu }, m, if r == 6 {
        8
    } else {
        4
    })
}

/// Eight-bit arithmetic with an immediate operand.
#[verifier::opaque]
pub open spec fn alu_imm_sem<B: GbBus>(op: u8, cpu: Cpu, m: B::V) -> (Cpu, B::V, u32) {
    let (c1, n) = fetch::<B>(cpu, m);
    let (a, f) = alu(op, c1.a, n, c1.f);
    (Cpu { a, f, ..c1 }, m, 8)
}

#[verifier::opaque]
pub open spec fn inc8_sem<B: GbBus>(r: u8, cpu: Cpu, m: B::V) -> (Cpu, B::V, u32) {
    let old = operand::<B>(cpu, m, r);
    let v = wadd8(old, 1);
    let (c1, m1) = store::<B>(cpu, m, r, v);
    (
        Cpu { f: flag_byte(v == 0, false, old as int % 16 == 15, cf(cpu.f)), ..c1 },
        m1,
        if r == 6 {
            12
        } else {
            4
        },
    )
}

#[verifier::opaque]
pub open spec fn dec8_sem<B: GbBus>(r: u8, cpu: Cpu, m: B::V) -> (Cpu, B::V, u32) {
    let old = operand::<B>(cpu, m, r);
    let v = wadd8(old, -1);
    let (c1, m1) = store::<B>(cpu, m, r, v);
    let f = if r == 6 {
        with_bit(with_bit(with_bit(cpu.f, Z_FLAG, v == 0), N_FLAG, true), H_FLAG, old as int % 16 == 0)
    } else {
        flag_byte(v == 0, true, old as int % 16 == 0, cf(cpu.f))
    };
    (Cpu { f, ..c1 }, m1, if r == 6 {
        12
    } else {
        4
    })
}

#[verifier::opaque]
pub open spec fn ld_imm_sem<B: GbBus>(r: u8, cpu: Cpu, m: B::V) -> (Cpu, B::V, u32) {
    let (c1, n) = fetch::<B>(cpu, m);
    let (c2, m2) = store::<B>(c1, m, r, n);
    (c2, m2, if r == 6 {
        12
    } else {
        8
    })
}

#[verifier::opaque]
pub open spec fn add_hl_sem(p: u8, cpu: Cpu) -> Cpu {
    let hl = cpu.hl();
    let v = cpu.pair(p);
    let half = hl as int % 4096 + v as int % 4096 > 4095;
    let carry = hl as int + v as int > 65535;
    let c1 = cpu.with_hl(wadd16(hl, v as int));
    let f = if p == 3 {
        flag_byte(zf(cpu.f), false, half, carry)
    } else {
        with_bit(with_bit(with_bit(cpu.f, N_FLAG, false), H_FLAG, half), C_FLAG, carry)
    };
    Cpu { f, ..c1 }
}

#[verifier::opaque]
pub open spec fn jr_sem<B: GbBus>(cc: u8, cpu: Cpu, m: B::V) -> (Cpu, B::V, u32) {
    let (c1, off) = fetch::<B>(cpu, m);
    if cond(cpu.f, cc) {
        (Cpu { pc: wadd16(c1.pc, signed8(off)), ..c1 }, m, 12)
    } else {
        (c1, m, 8)
    }
}

#[verifier::opaque]
pub open spec fn jp_sem<B: GbBus>(cc: u8, cpu: Cpu, m: B::V) -> (Cpu, B::V, u32) {
    let (c1, nn) = fetch16::<B>(cpu, m);
    if cc > 3 {
        (Cpu { pc: nn, ..c1 }, m, 16)
    } else if cond(cpu.f, cc) {
        (Cpu { pc: nn, ..c1 }, m, 16)
    } else {
        (c1, m, 12)
    }
}

#[verifier::opaque]
pub open spec fn ret_cc_sem<B: GbBus>(cc: u8, cpu: Cpu, m: B::V) -> (Cpu, B::V, u32) {
    if cond(cpu.f, cc) {
        let (c1, hi, lo) = pop2::<B>(cpu, m);
        (Cpu { pc: word(hi, lo), ..c1 }, m, 20)
    } else {
        (cpu, m, 8)
    }
}

#[verifier::opaque]
pub open spec fn call_sem<B: GbBus>(cpu: Cpu, m: B::V) -> (Cpu, B::V, u32) {
    let (c1, nn) = fetch16::<B>(cpu, m);
    let (c2, m2) = push2::<B>(c1, m, hi_byte(c1.pc), lo_byte(c1.pc));
    (Cpu { pc: nn, ..c2 }, m2, 24)
}

#[verifier::opaque]
pub open spec fn rst_sem<B: GbBus>(target: u16, cpu: Cpu, m: B::V) -> (Cpu, B::V, u32) {
    let (c1, m1) = push2::<B>(cpu, m, hi_byte(cpu.pc), lo_byte(cpu.pc));
    (Cpu { pc: target, ..c1 }, m1, 16)
}

#[verifier::opaque]
pub open spec fn push_sem<B: GbBus>(p: u8, cpu: Cpu, m: B::V) -> (Cpu, B::V, u32) {
    let (hi, lo) = if p == 0 {
        (cpu.b, cpu.c)
    } else if p == 1 {
        (cpu.d, cpu.e)
    } else if p == 2 {
        (cpu.h, cpu.l)
    } else {
        (cpu.a, cpu.f)
    };
    let (c1, m1) = push2::<B>(cpu, m, hi, lo);
    (c1, m1, 16)
}

#[verifier::opaque]
pub open spec fn pop_sem<B: GbBus>(p: u8, cpu: Cpu, m: B::V) -> (Cpu, B::V, u32) {
    let (c1, hi, lo) = pop2::<B>(cpu, m);
    let c2 = if p == 0 {
        Cpu { b: hi, c: lo, ..c1 }
    } else if p == 1 {
        Cpu { d: hi, e: lo, ..c1 }
    } else if p == 2 {
        Cpu { h: hi, l: lo, ..c1 }
    } else {
        Cpu { a: hi, f: lo & 0xF0, ..c1 }
    };
    (c2, m, 12)
}

/// `LD (rr), A` through BC (0), DE (1), HL then increment (2), HL then
/// decrement (3).
#[verifier::opaque]
pub open spec fn store_a_sem<B: GbBus>(mode: u8, cpu: Cpu, m: B::V) -> (Cpu, B::V, u32) {
    let addr = if mode == 0 {
        cpu.bc()
    } else if mode == 1 {
        cpu.de()
    } else {
        cpu.hl()
    };
    let m1 = B::poke(m, addr, cpu.a);
    let c1 = if mode == 2 {
        cpu.with_hl(wadd16(addr, 1))
    } else if mode == 3 {
        cpu.with_hl(wadd16(addr, -1))
    } else {
        cpu
    };
    (c1, m1, 8)
}

/// `LD A, (rr)` with the addressing modes of `store_a_sem`.
#[verifier::opaque]
pub open spec fn load_a_sem<B: GbBus>(mode: u8, cpu: Cpu, m: B::V) -> (Cpu, B::V, u32) {
    let addr = if mode == 0 {
        cpu.bc()
    } else if mode == 1 {
        cpu.de()
    } else {
        cpu.hl()
    };
    let c1 = Cpu { a: B::peek(m, addr), ..cpu };
    let c2 = if mode == 2 {
        c1.with_hl(wadd16(addr, 1))
    } else if mode == 3 {
        c1.with_hl(wadd16(addr, -1))
    } else {
        c1
    };
    (c2, m, 8)
}

/// The rotate or shift `kind` of a CB-prefixed opcode below 0x40 (0 RLC,
/// 1 RRC, 2 RL, 3 RR, 4 SLA, 5 SRA, 6 SWAP, 7 SRL) applied to `v` with carry
/// flag `c`: the result and the new carry.
pub open spec fn shift(kind: u8, v: u8, c: bool) -> (u8, bool) {
    let cin: int = if c {
        1
    } else {
        0
    };
    if kind == 0 {
        (((2 * v as int + v as int / 128) % 256) as u8, v >= 0x80)
    } else if kind == 1 {
        ((v as int / 2 + (v as int % 2) * 128) as u8, v % 2 == 1)
    } else if kind == 2 {
        (((2 * v as int + cin) % 256) as u8, v >= 0x80)
    } else if kind == 3 {
        ((v as int / 2 + cin * 128) as u8, v % 2 == 1)
    } else if kind == 4 {
        (((2 * v as int) % 256) as u8, v >= 0x80)
    } else if kind == 5 {
        ((v as int / 2 + (if v >= 0x80 {
            128int
        } else {
            0
        })) as u8, v % 2 == 1)
    } else if kind == 6 {
        (swap_nibbles(v), false)
    } else {
        (v / 2, v % 2 == 1)
    }
}

/// The effect of the CB-prefixed opcode `op` (the prefix and `op` already
/// fetched): rotates and shifts below 0x40, then BIT, RES and SET, each on
/// operand `op % 8`.
#[verifier::opaque]
pub open spec fn cb_sem<B: GbBus>(op: u8, cpu: Cpu, m: B::V) -> (Cpu, B::V, u32) {
    let r = op % 8;
    let old = operand::<B>(cpu, m, r);
    let slow: u32 = if r == 6 {
        16
    } else {
        8
    };
    if op < 0x40 {
        let (v, carry) = shift(op / 8, old, cf(cpu.f));
        let (c1, m1) = store::<B>(cpu, m, r, v);
        (Cpu { f: flag_byte(v == 0, false, false, carry), ..c1 }, m1, slow)
    } else if op < 0x80 {
        let bit = ((op - 0x40) / 8) as u8;
        let set = old & (1u8 << bit) != 0;
        (Cpu { f: flag_byte(!set, false, true, cf(cpu.f)), ..cpu }, m, if r == 6 {
            12
        } else {
            8
        })
    } else if op < 0xC0 {
        let bit = ((op - 0x80) / 8) as u8;
        let (c1, m1) = store::<B>(cpu, m, r, old & !(1u8 << bit));
        (c1, m1, slow)
    } else {
        let bit = ((op - 0xC0) / 8) as u8;
        let (c1, m1) = store::<B>(cpu, m, r, old | (1u8 << bit));
        (c1, m1, slow)
    }
}

/// `ADD SP, e` and `LD HL, SP + e`: SP plus the signed byte `e`, and the
/// flags (half carry and carry out of the low byte, Z and N clear).
pub open spec fn sp_offset(sp: u16, e: u8) -> (u16, u8) {
    (
        wadd16(sp, signed8(e)),
        flag_byte(false, false, sp as int % 16 + e as int % 16 > 15, sp as int % 256 + e as int > 255),
    )
}

#[verifier::opaque]
pub open spec fn call_cc_sem<B: GbBus>(cc: u8, cpu: Cpu, m: B::V) -> (Cpu, B::V, u32) {
    let (c1, nn) = fetch16::<B>(cpu, m);
    if cond(cpu.f, cc) {
        let (c2, m2) = push2::<B>(c1, m, hi_byte(c1.pc), lo_byte(c1.pc));
        (Cpu { pc: nn, ..c2 }, m2, 24)
    } else {
        (c1, m, 12)
    }
}

/// The effect of opcode `op` with PC already moved past it; 0 cycles for an
/// opcode that the SM83 does not define.
pub open spec fn exec_sem<B: GbBus>(op: u8, cpu: Cpu, m: B::V) -> (Cpu, B::V, u32) {
    if 0x40 <= op < 0x80 {
        if op == 0x76 {
            let pending = B::peek(m, 0xFFFF) & B::peek(m, 0xFF0F) & 0x1F;
            if pending == 0 {
                (Cpu { pc: wadd16(cpu.pc, -1), ..cpu }, m, 4)
            } else {
                (cpu, m, 4)
            }
        } else {
            ld8_sem::<B>(op, cpu, m)
        }
    } else if 0x80 <= op < 0xC0 {
        alu_sem::<B>(((op - 0x80) / 8) as u8, op % 8, cpu, m)
    } else if op < 0x40 && op % 8 == 4 {
        inc8_sem::<B>(op / 8, cpu, m)
    } else if op < 0x40 && op % 8 == 5 {
        dec8_sem::<B>(op / 8, cpu, m)
    } else if op < 0x40 && op % 8 == 6 {
        ld_imm_sem::<B>(op / 8, cpu, m)
    } else if op < 0x40 && op % 16 == 1 {
        let (c1, nn) = fetch16::<B>(cpu, m);
        (c1.with_pair(op / 16, nn), m, 12)
    } else if op < 0x40 && op % 16 == 3 {
        (cpu.with_pair(op / 16, wadd16(cpu.pair(op / 16), 1)), m, 8)
    } else if op < 0x40 && op % 16 == 0x0B {
        (cpu.with_pair(op / 16, wadd16(cpu.pair(op / 16), -1)), m, 8)
    } else if op < 0x40 && op % 16 == 2 {
        store_a_sem::<B>(op / 16, cpu, m)
    } else if op < 0x40 && op % 16 == 0x0A {
        load_a_sem::<B>(op / 16, cpu, m)
    } else if op >= 0xC0 && op % 8 == 7 {
        rst_sem::<B>((op - 0xC7) as u16, cpu, m)
    } else if op >= 0xC0 && op % 8 == 6 {
        alu_imm_sem::<B>(((op - 0xC6) / 8) as u8, cpu, m)
    } else {
        misc_sem::<B>(op, cpu, m)
    }
}

/// Opcodes outside the regular blocks of `exec_sem`.
pub open spec fn misc_sem<B: GbBus>(op: u8, cpu: Cpu, m: B::V) -> (Cpu, B::V, u32) {
    if op < 0xC0 {
        misc_low_sem::<B>(op, cpu, m)
    } else {
        misc_high_sem::<B>(op, cpu, m)
    }
}

/// Opcodes below 0xC0 outside the regular blocks of `exec_sem`.
#[verifier::opaque]
pub open spec fn misc_low_sem<B: GbBus>(op: u8, cpu: Cpu, m: B::V) -> (Cpu, B::V, u32) {
    {
        match op {
            0x00 => (cpu, m, 4),
            0x07 => {
                let a = cpu.a;
                let v = wadd8(a, a as int + a as int / 128);
                (Cpu { a: v, f: flag_byte(false, false, false, a >= 0x80), ..cpu }, m, 4)
            },
            0x08 => {
                let (c1, nn) = fetch16::<B>(cpu, m);
                let m1 = B::poke(m, nn, lo_byte(cpu.sp));
                (c1, B::poke(m1, wadd16(nn, 1), hi_byte(cpu.sp)), 20)
            },
            0x0F => {
                let (v, carry) = shift(1, cpu.a, false);
                (Cpu { a: v, f: flag_byte(false, false, false, carry), ..cpu }, m, 4)
            },
            0x10 => (fetch::<B>(cpu, m).0, m, 4),
            0x17 => {
                let (v, carry) = shift(2, cpu.a, cf(cpu.f));
                (Cpu { a: v, f: flag_byte(false, false, false, carry), ..cpu }, m, 4)
            },
            0x1F => {
                let (v, carry) = shift(3, cpu.a, cf(cpu.f));
                (Cpu { a: v, f: flag_byte(false, false, false, carry), ..cpu }, m, 4)
            },
            0x09 => (add_hl_sem(0, cpu), m, 8),
            0x19 => (add_hl_sem(1, cpu), m, 8),
            0x29 => (add_hl_sem(2, cpu), m, 8),
            0x39 => (add_hl_sem(3, cpu), m, 8),
            0x37 => (Cpu { f: flag_byte(zf(cpu.f), false, false, true), ..cpu }, m, 4),
            0x3F => (Cpu { f: flag_byte(zf(cpu.f), false, false, !cf(cpu.f)), ..cpu }, m, 4),
            0x18 => jr_sem::<B>(4, cpu, m),
            0x20 => jr_sem::<B>(0, cpu, m),
            0x28 => jr_sem::<B>(1, cpu, m),
            0x30 => jr_sem::<B>(2, cpu, m),
            0x38 => jr_sem::<B>(3, cpu, m),
            0x27 => {
                let (a, f) = daa(cpu.a, cpu.f);
                (Cpu { a, f, ..cpu }, m, 4)
            },
            0x2F => (
                Cpu { a: !cpu.a, f: with_bit(with_bit(cpu.f, N_FLAG, true), H_FLAG, true), ..cpu },
                m,
                4,
            ),
            _ => (cpu, m, 0),
        }
    }
}

/// Opcodes at 0xC0 and above outside the regular blocks of `exec_sem`.
#[verifier::opaque]
pub open spec fn misc_high_sem<B: GbBus>(op: u8, cpu: Cpu, m: B::V) -> (Cpu, B::V, u32) {
    {
        match op {
            0xC0 => ret_cc_sem::<B>(0, cpu, m),
            0xC8 => ret_cc_sem::<B>(1, cpu, m),
            0xD0 => ret_cc_sem::<B>(2, cpu, m),
            0xD8 => ret_cc_sem::<B>(3, cpu, m),
            0xC9 => {
                let (c1, hi, lo) = pop2::<B>(cpu, m);
                (Cpu { pc: word(hi, lo), ..c1 }, m, 16)
            },
            0xD9 => {
                let (c1, hi, lo) = pop2::<B>(cpu, m);
                (Cpu { pc: word(hi, lo), ime: true, ..c1 }, m, 16)
            },
            0xC1 => pop_sem::<B>(0, cpu, m),
            0xD1 => pop_sem::<B>(1, cpu, m),
            0xE1 => pop_sem::<B>(2, cpu, m),
            0xF1 => pop_sem::<B>(3, cpu, m),
            0xC5 => push_sem::<B>(0, cpu, m),
            0xD5 => push_sem::<B>(1, cpu, m),
            0xE5 => push_sem::<B>(2, cpu, m),
            0xF5 => push_sem::<B>(3, cpu, m),
            0xC2 => jp_sem::<B>(0, cpu, m),
            0xCA => jp_sem::<B>(1, cpu, m),
            0xD2 => jp_sem::<B>(2, cpu, m),
            0xDA => jp_sem::<B>(3, cpu, m),
            0xC3 => jp_sem::<B>(4, cpu, m),
            0xCD => call_sem::<B>(cpu, m),
            0xC4 => call_cc_sem::<B>(0, cpu, m),
            0xCC => call_cc_sem::<B>(1, cpu, m),
            0xD4 => call_cc_sem::<B>(2, cpu, m),
            0xDC => call_cc_sem::<B>(3, cpu, m),
            0xCB => {
                let (c1, cb) = fetch::<B>(cpu, m);
                let (c2, m2, n) = cb_sem::<B>(cb, c1, m);
                (c2, m2, (n + 4) as u32)
            },
            0xE0 => {
                let (c1, n) = fetch::<B>(cpu, m);
                (c1, B::poke(m, (0xFF00 + n as int) as u16, c1.a), 12)
            },
            0xF0 => {
                let (c1, n) = fetch::<B>(cpu, m);
                (Cpu { a: B::peek(m, (0xFF00 + n as int) as u16), ..c1 }, m, 12)
            },
            0xE2 => (cpu, B::poke(m, (0xFF00 + cpu.c as int) as u16, cpu.a), 8),
            0xF2 => (Cpu { a: B::peek(m, (0xFF00 + cpu.c as int) as u16), ..cpu }, m, 8),
            0xE8 => {
                let (c1, e) = fetch::<B>(cpu, m);
                let (sp, f) = sp_offset(cpu.sp, e);
                (Cpu { sp, f, ..c1 }, m, 16)
            },
            0xF8 => {
                let (c1, e) = fetch::<B>(cpu, m);
                let (v, f) = sp_offset(cpu.sp, e);
                (Cpu { f, ..c1.with_hl(v) }, m, 12)
            },
            0xF9 => (Cpu { sp: cpu.hl(), ..cpu }, m, 8),
            0xEA => {
                let (c1, nn) = fetch16::<B>(cpu, m);
                (c1, B::poke(m, nn, c1.a), 16)
            },
            0xFA => {
                let (c1, nn) = fetch16::<B>(cpu, m);
                (Cpu { a: B::peek(m, nn), ..c1 }, m, 16)
            },
            0xE9 => {
                let at = wadd16(cpu.pc, -1);
                let c1 = if at < 0x8000 {
                    Cpu { last_rom_pc: at, ..cpu }
                } else {
                    cpu
                };
                (Cpu { pc: cpu.hl(), ..c1 }, m, 4)
            },
            0xF3 => (Cpu { ime: false, ..cpu }, m, 4),
            0xFB => (Cpu { ime: true, ..cpu }, m, 4),
            _ => (cpu, m, 0),
        }
    }
}

/// The interrupt taken for the pending bits `pending` (nonzero): the bit to
/// acknowledge and the handler address, lowest bit first.
pub open spec fn irq_vector(pending: u8) -> (u8, u16) {
    if pending & 0x01 != 0 {
        (0x01, 0x0040)
    } else if pending & 0x02 != 0 {
        (0x02, 0x0048)
    } else if pending & 0x04 != 0 {
        (0x04, 0x0050)
    } else if pending & 0x08 != 0 {
        (0x08, 0x0058)
    } else {
        (0x10, 0x0060)
    }
}

/// One step of the processor on a bus in state `m`: the new processor, the
/// new bus and the cycles taken (0 when execution stops: PC in 0x8000..0xC000
/// or an opcode that the SM83 does not define).
pub open spec fn step_sem<B: GbBus>(cpu: Cpu, m: B::V) -> (Cpu, B::V, u32) {
    let ie = B::peek(m, 0xFFFF);
    let iflag = B::peek(m, 0xFF0F);
    let pending = ie & iflag & 0x1F;
    if cpu.ime && pending != 0 {
        let (bit, addr) = irq_vector(pending);
        let m1 = B::poke(m, 0xFF0F, iflag & !bit);
        let (c1, m2) = push2::<B>(Cpu { ime: false, ..cpu }, m1, hi_byte(cpu.pc), lo_byte(cpu.pc));
        (Cpu { pc: addr, ..c1 }, m2, 20)
    } else if 0x8000 <= cpu.pc < 0xC000 {
        (cpu, m, 0)
    } else {
        let (c1, op) = fetch::<B>(cpu, m);
        exec_sem::<B>(op, c1, m)
    }
}


// ---------------------------------------------------------------------------
// Executable processor
// ---------------------------------------------------------------------------
pub(crate) fn with_bit_x(f: u8, mask: u8, on: bool) -> (r: u8)
    ensures
        r == with_bit(f, mask, on),
{
    reveal(with_bit);
    if on {
        f | mask
    } else {
        f & !mask
    }
}

fn flags_x(z: bool, n: bool, h: bool, c: bool) -> (r: u8)
    ensures
        r == flag_byte(z, n, h, c),
{
    reveal(flag_byte);
    let mut f: u8 = 0;
    f = with_bit_x(f, Z_FLAG, z);
    f = with_bit_x(f, N_FLAG, n);
    f = with_bit_x(f, H_FLAG, h);
    f = with_bit_x(f, C_FLAG, c);
    f
}

#[verifier::rlimit(40)]
fn alu_x(op: u8, a: u8, v: u8, f: u8) -> (r: (u8, u8))
    ensures
        r == alu(op, a, v, f),
{
    let c: u8 = if f & C_FLAG != 0 {
        1
    } else {
        0
    };
    if op == 0 {
        let r = a.wrapping_add(v);
        (r, flags_x(r == 0, false, a % 16 + v % 16 > 15, a as u16 + v as u16 > 255))
    } else if op == 1 {
        let r = a.wrapping_add(v).wrapping_add(c);
        (r, flags_x(r == 0, false, a % 16 + v % 16 + c > 15, a as u16 + v as u16 + c as u16 > 255))
    } else if op == 2 {
        let r = a.wrapping_sub(v);
        (r, flags_x(r == 0, true, a % 16 < v % 16, a < v))
    } else if op == 3 {
        let r = a.wrapping_sub(v).wrapping_sub(c);
        (r, flags_x(r == 0, true, a % 16 < v % 16 + c, (a as u16) < v as u16 + c as u16))
    } else if op == 4 {
        let r = a & v;
        (r, flags_x(r == 0, false, true, false))
    } else if op == 5 {
        let r = a ^ v;
        (r, flags_x(r == 0, false, false, false))
    } else if op == 6 {
        let r = a | v;
        (r, flags_x(r == 0, false, false, false))
    } else {
        (a, flags_x(a == v, true, a % 16 < v % 16, a < v))
    }
}

impl Cpu {
    /// The register state right after the boot ROM hands over.
    pub open spec fn new_spec() -> Cpu {
        Cpu {
            a: 0x01,
            f: 0xB0,
            b: 0x00,
            c: 0x13,
            d: 0x00,
            e: 0xD8,
            h: 0x01,
            l: 0x4D,
            pc: 0x0100,
            sp: 0xFFFE,
            ime: false,
            last_rom_pc: 0x0100,
        }
    }

    pub fn new() -> (r: Self)
        ensures
            r == Cpu::new_spec(),
            r == (Cpu {
                a: 0x01,
                f: 0xB0,
                b: 0x00,
                c: 0x13,
                d: 0x00,
                e: 0xD8,
                h: 0x01,
                l: 0x4D,
                pc: 0x0100,
                sp: 0xFFFE,
                ime: false,
                last_rom_pc: 0x0100,
            }),
    {
        Self {
            a: 0x01,
            f: 0xB0,
            b: 0x00,
            c: 0x13,
            d: 0x00,
            e: 0xD8,
            h: 0x01,
            l: 0x4D,
            pc: 0x0100,
            sp: 0xFFFE,
            ime: false,
            last_rom_pc: 0x0100,
        }
    }

    pub fn get_bc(&self) -> (r: u16)
        ensures
            r == self.bc(),
    {
        (self.b as u16) * 256 + (self.c as u16)
    }

    pub fn set_bc(&mut self, value: u16)
        ensures
            *final(self) == old(self).with_bc(value),
    {
        self.b = (value / 256) as u8;
        self.c = (value % 256) as u8;
    }

    pub fn get_de(&self) -> (r: u16)
        ensures
            r == self.de(),
    {
        (self.d as u16) * 256 + (self.e as u16)
    }

    pub fn set_de(&mut self, value: u16)
        ensures
            *final(self) == old(self).with_de(value),
    {
        self.d = (value / 256) as u8;
        self.e = (value % 256) as u8;
    }

    pub fn get_hl(&self) -> (r: u16)
        ensures
            r == self.hl(),
    {
        (self.h as u16) * 256 + (self.l as u16)
    }

    pub fn set_hl(&mut self, value: u16)
        ensures
            *final(self) == old(self).with_hl(value),
    {
        self.h = (value / 256) as u8;
        self.l = (value % 256) as u8;
    }

    pub fn get_af(&self) -> (r: u16)
        ensures
            r == self.af(),
    {
        (self.a as u16) * 256 + (self.f as u16)
    }

    /// Sets A and F; the low four bits of F always read as zero.
    pub fn set_af(&mut self, value: u16)
        ensures
            *final(self) == (Cpu { a: hi_byte(value), f: lo_byte(value) & 0xF0, ..*old(self) }),
    {
        self.a = (value / 256) as u8;
        self.f = ((value % 256) as u8) & 0xF0;
    }

    pub fn get_z(&self) -> (r: bool)
        ensures
            r == zf(self.f),
    {
        (self.f & Z_FLAG) != 0
    }

    pub fn get_n(&self) -> (r: bool)
        ensures
            r == nf(self.f),
    {
        (self.f & N_FLAG) != 0
    }

    pub fn get_h(&self) -> (r: bool)
        ensures
            r == hf(self.f),
    {
        (self.f & H_FLAG) != 0
    }

    pub fn get_c(&self) -> (r: bool)
        ensures
            r == cf(self.f),
    {
        (self.f & C_FLAG) != 0
    }

    /// Replaces the whole flag register: exactly the given flags are set.
    pub fn set_flags(&mut self, z: bool, n: bool, h: bool, c: bool)
        ensures
            *final(self) == (Cpu { f: flag_byte(z, n, h, c), ..*old(self) }),
    {
        self.f = flags_x(z, n, h, c);
    }

    pub fn set_z(&mut self, value: bool)
        ensures
            *final(self) == (Cpu { f: with_bit(old(self).f, Z_FLAG, value), ..*old(self) }),
    {
        self.f = with_bit_x(self.f, Z_FLAG, value);
    }

    pub fn set_n(&mut self, value: bool)
        ensures
            *final(self) == (Cpu { f: with_bit(old(self).f, N_FLAG, value), ..*old(self) }),
    {
        self.f = with_bit_x(self.f, N_FLAG, value);
    }

    pub fn set_h(&mut self, value: bool)
        ensures
            *final(self) == (Cpu { f: with_bit(old(self).f, H_FLAG, value), ..*old(self) }),
    {
        self.f = with_bit_x(self.f, H_FLAG, value);
    }

    pub fn set_c(&mut self, value: bool)
        ensures
            *final(self) == (Cpu { f: with_bit(old(self).f, C_FLAG, value), ..*old(self) }),
    {
        self.f = with_bit_x(self.f, C_FLAG, value);
    }

    fn reg_x(&self, r: u8) -> (v: u8)
        ensures
            v == self.reg(r),
    {
        if r == 0 {
            self.b
        } else if r == 1 {
            self.c
        } else if r == 2 {
            self.d
        } else if r == 3 {
            self.e
        } else if r == 4 {
            self.h
        } else if r == 5 {
            self.l
        } else {
            self.a
        }
    }

    fn set_reg_x(&mut self, r: u8, v: u8)
        ensures
            *final(self) == old(self).with_reg(r, v),
    {
        if r == 0 {
            self.b = v;
        } else if r == 1 {
            self.c = v;
        } else if r == 2 {
            self.d = v;
        } else if r == 3 {
            self.e = v;
        } else if r == 4 {
            self.h = v;
        } else if r == 5 {
            self.l = v;
        } else {
            self.a = v;
        }
    }

    fn pair_x(&self, p: u8) -> (v: u16)
        ensures
            v == self.pair(p),
    {
        if p == 0 {
            self.get_bc()
        } else if p == 1 {
            self.get_de()
        } else if p == 2 {
            self.get_hl()
        } else {
            self.sp
        }
    }

    fn set_pair_x(&mut self, p: u8, v: u16)
        ensures
            *final(self) == old(self).with_pair(p, v),
    {
        if p == 0 {
            self.set_bc(v);
        } else if p == 1 {
            self.set_de(v);
        } else if p == 2 {
            self.set_hl(v);
        } else {
            self.sp = v;
        }
    }

    fn operand_x<B: GbBus>(&self, mmu: &B, r: u8) -> (v: u8)
        ensures
            v == operand::<B>(*self, mmu@, r),
    {
        if r == 6 {
            mmu.read_byte(self.get_hl())
        } else {
            self.reg_x(r)
        }
    }

    fn store_x<B: GbBus>(&mut self, mmu: &mut B, r: u8, v: u8)
        ensures
            (*final(self), final(mmu)@) == store::<B>(*old(self), old(mmu)@, r, v),
    {
        if r == 6 {
            let addr = self.get_hl();
            mmu.write_byte(addr, v);
        } else {
            self.set_reg_x(r, v);
        }
    }

    fn fetch_x<B: GbBus>(&mut self, mmu: &B) -> (b: u8)
        ensures
            (*final(self), b) == fetch::<B>(*old(self), mmu@),
    {
        let b = mmu.read_byte(self.pc);
        self.pc = self.pc.wrapping_add(1);
        b
    }

    fn fetch16_x<B: GbBus>(&mut self, mmu: &B) -> (w: u16)
        ensures
            (*final(self), w) == fetch16::<B>(*old(self), mmu@),
    {
        let lo = self.fetch_x(mmu);
        let hi = self.fetch_x(mmu);
        (hi as u16) * 256 + (lo as u16)
    }

    fn push2_x<B: GbBus>(&mut self, mmu: &mut B, hi: u8, lo: u8)
        ensures
            (*final(self), final(mmu)@) == push2::<B>(*old(self), old(mmu)@, hi, lo),
    {
        self.sp = self.sp.wrapping_sub(1);
        mmu.write_byte(self.sp, hi);
        self.sp = self.sp.wrapping_sub(1);
        mmu.write_byte(self.sp, lo);
    }

    fn pop2_x<B: GbBus>(&mut self, mmu: &B) -> (r: (u8, u8))
        ensures
            (*final(self), r.0, r.1) == pop2::<B>(*old(self), mmu@),
    {
        let lo = mmu.read_byte(self.sp);
        self.sp = self.sp.wrapping_add(1);
        let hi = mmu.read_byte(self.sp);
        self.sp = self.sp.wrapping_add(1);
        (hi, lo)
    }

    fn cond_x(&self, cc: u8) -> (r: bool)
        ensures
            r == cond(self.f, cc),
    {
        if cc == 0 {
            !self.get_z()
        } else if cc == 1 {
            self.get_z()
        } else if cc == 2 {
            !self.get_c()
        } else if cc == 3 {
            self.get_c()
        } else {
            true
        }
    }
}


impl Cpu {
    fn ld8_x<B: GbBus>(&mut self, mmu: &mut B, op: u8) -> (n: u32)
        requires
            0x40 <= op < 0x80,
        ensures
            (*final(self), final(mmu)@, n) == ld8_sem::<B>(op, *old(self), old(mmu)@),
    {
        reveal(ld8_sem);
        let dst = (op - 0x40) / 8;
        let src = op % 8;
        let v = self.operand_x(mmu, src);
        self.store_x(mmu, dst, v);
        if dst == 6 || src == 6 {
            8
        } else {
            4
        }
    }

    fn alu_r_x<B: GbBus>(&mut self, mmu: &B, op: u8, r: u8) -> (n: u32)
        ensures
            (*final(self), mmu@, n) == alu_sem::<B>(op, r, *old(self), mmu@),
    {
        reveal(alu_sem);
        let v = self.operand_x(mmu, r);
        let (a, f) = alu_x(op, self.a, v, self.f);
        self.a = a;
        self.f = f;
        if r == 6 {
            8
        } else {
            4
        }
    }

    fn alu_imm_x<B: GbBus>(&mut self, mmu: &B, op: u8) -> (n: u32)
        ensures
            (*final(self), mmu@, n) == alu_imm_sem::<B>(op, *old(self), mmu@),
    {
        reveal(alu_imm_sem);
        let v = self.fetch_x(mmu);
        let (a, f) = alu_x(op, self.a, v, self.f);
        self.a = a;
        self.f = f;
        8
    }

    fn inc8_x<B: GbBus>(&mut self, mmu: &mut B, r: u8) -> (n: u32)
        ensures
            (*final(self), final(mmu)@, n) == inc8_sem::<B>(r, *old(self), old(mmu)@),
    {
        reveal(inc8_sem);
        let old = self.operand_x(mmu, r);
        let v = old.wrapping_add(1);
        let c = self.get_c();
        self.store_x(mmu, r, v);
        self.set_flags(v == 0, false, old % 16 == 15, c);
        if r == 6 {
            12
        } else {
            4
        }
    }

    fn dec8_x<B: GbBus>(&mut self, mmu: &mut B, r: u8) -> (n: u32)
        ensures
            (*final(self), final(mmu)@, n) == dec8_sem::<B>(r, *old(self), old(mmu)@),
    {
        reveal(dec8_sem);
        let old = self.operand_x(mmu, r);
        let v = old.wrapping_sub(1);
        let c = self.get_c();
        self.store_x(mmu, r, v);
        if r == 6 {
            self.set_z(v == 0);
            self.set_n(true);
            self.set_h(old % 16 == 0);
            12
        } else {
            self.set_flags(v == 0, true, old % 16 == 0, c);
            4
        }
    }

    fn ld_imm_x<B: GbBus>(&mut self, mmu: &mut B, r: u8) -> (n: u32)
        ensures
            (*final(self), final(mmu)@, n) == ld_imm_sem::<B>(r, *old(self), old(mmu)@),
    {
        reveal(ld_imm_sem);
        let v = self.fetch_x(mmu);
        self.store_x(mmu, r, v);
        if r == 6 {
            12
        } else {
            8
        }
    }

    fn add_hl_x(&mut self, p: u8)
        ensures
            *final(self) == add_hl_sem(p, *old(self)),
    {
        reveal(add_hl_sem);
        let hl = self.get_hl();
        let v = self.pair_x(p);
        let half = hl % 4096 + v % 4096 > 4095;
        let carry = hl as u32 + v as u32 > 65535;
        let z = self.get_z();
        self.set_hl(hl.wrapping_add(v));
        if p == 3 {
            self.set_flags(z, false, half, carry);
        } else {
            self.set_n(false);
            self.set_h(half);
            self.set_c(carry);
        }
    }

    fn jr_x<B: GbBus>(&mut self, mmu: &B, cc: u8) -> (n: u32)
        ensures
            (*final(self), mmu@, n) == jr_sem::<B>(cc, *old(self), mmu@),
    {
        reveal(jr_sem);
        let taken = self.cond_x(cc);
        let off = self.fetch_x(mmu);
        if taken {
            if off < 128 {
                self.pc = self.pc.wrapping_add(off as u16);
            } else {
                self.pc = self.pc.wrapping_sub(256 - off as u16);
            }
            12
        } else {
            8
        }
    }

    fn jp_x<B: GbBus>(&mut self, mmu: &B, cc: u8) -> (n: u32)
        ensures
            (*final(self), mmu@, n) == jp_sem::<B>(cc, *old(self), mmu@),
    {
        reveal(jp_sem);
        let taken = self.cond_x(cc);
        let nn = self.fetch16_x(mmu);
        if cc > 3 {
            self.pc = nn;
            16
        } else if taken {
            self.pc = nn;
            16
        } else {
            12
        }
    }

    fn ret_cc_x<B: GbBus>(&mut self, mmu: &B, cc: u8) -> (n: u32)
        ensures
            (*final(self), mmu@, n) == ret_cc_sem::<B>(cc, *old(self), mmu@),
    {
        reveal(ret_cc_sem);
        if self.cond_x(cc) {
            let (hi, lo) = self.pop2_x(mmu);
            self.pc = (hi as u16) * 256 + (lo as u16);
            20
        } else {
            8
        }
    }

    fn call_x<B: GbBus>(&mut self, mmu: &mut B) -> (n: u32)
        ensures
            (*final(self), final(mmu)@, n) == call_sem::<B>(*old(self), old(mmu)@),
    {
        reveal(call_sem);
        let nn = self.fetch16_x(mmu);
        let ret = self.pc;
        self.push2_x(mmu, (ret / 256) as u8, (ret % 256) as u8);
        self.pc = nn;
        24
    }

    fn rst_x<B: GbBus>(&mut self, mmu: &mut B, target: u16) -> (n: u32)
        ensures
            (*final(self), final(mmu)@, n) == rst_sem::<B>(target, *old(self), old(mmu)@),
    {
        reveal(rst_sem);
        let ret = self.pc;
        self.push2_x(mmu, (ret / 256) as u8, (ret % 256) as u8);
        self.pc = target;
        16
    }

    fn push_x<B: GbBus>(&mut self, mmu: &mut B, p: u8) -> (n: u32)
        ensures
            (*final(self), final(mmu)@, n) == push_sem::<B>(p, *old(self), old(mmu)@),
    {
        reveal(push_sem);
        let (hi, lo) = if p == 0 {
            (self.b, self.c)
        } else if p == 1 {
            (self.d, self.e)
        } else if p == 2 {
            (self.h, self.l)
        } else {
            (self.a, self.f)
        };
        self.push2_x(mmu, hi, lo);
        16
    }

    fn pop_x<B: GbBus>(&mut self, mmu: &B, p: u8) -> (n: u32)
        ensures
            (*final(self), mmu@, n) == pop_sem::<B>(p, *old(self), mmu@),
    {
        reveal(pop_sem);
        let (hi, lo) = self.pop2_x(mmu);
        if p == 0 {
            self.b = hi;
            self.c = lo;
        } else if p == 1 {
            self.d = hi;
            self.e = lo;
        } else if p == 2 {
            self.h = hi;
            self.l = lo;
        } else {
            self.a = hi;
            self.f = lo & 0xF0;
        }
        12
    }

    fn store_a_x<B: GbBus>(&mut self, mmu: &mut B, mode: u8) -> (n: u32)
        ensures
            (*final(self), final(mmu)@, n) == store_a_sem::<B>(mode, *old(self), old(mmu)@),
    {
        reveal(store_a_sem);
        let addr = if mode == 0 {
            self.get_bc()
        } else if mode == 1 {
            self.get_de()
        } else {
            self.get_hl()
        };
        mmu.write_byte(addr, self.a);
        if mode == 2 {
            self.set_hl(addr.wrapping_add(1));
        } else if mode == 3 {
            self.set_hl(addr.wrapping_sub(1));
        }
        8
    }

    fn load_a_x<B: GbBus>(&mut self, mmu: &B, mode: u8) -> (n: u32)
        ensures
            (*final(self), mmu@, n) == load_a_sem::<B>(mode, *old(self), mmu@),
    {
        reveal(load_a_sem);
        let addr = if mode == 0 {
            self.get_bc()
        } else if mode == 1 {
            self.get_de()
        } else {
            self.get_hl()
        };
        self.a = mmu.read_byte(addr);
        if mode == 2 {
            self.set_hl(addr.wrapping_add(1));
        } else if mode == 3 {
            self.set_hl(addr.wrapping_sub(1));
        }
        8
    }

    fn daa_x(&mut self)
        ensures
            *final(self) == (Cpu {
                a: daa(old(self).a, old(self).f).0,
                f: daa(old(self).a, old(self).f).1,
                ..*old(self)
            }),
    {
        reveal(daa);
        let a = self.a;
        let c = self.get_c();
        let h = self.get_h();
        if !self.get_n() {
            let high = c || a > 0x99;
            let low = h || a % 16 > 9;
            let adjust: u8 = (if high {
                0x60u8
            } else {
                0
            }) + (if low {
                0x06u8
            } else {
                0
            });
            let r = a.wrapping_add(adjust);
            self.a = r;
            self.set_flags(r == 0, false, false, high);
        } else {
            let adjust: u8 = (if c {
                0x60u8
            } else {
                0
            }) + (if h {
                0x06u8
            } else {
                0
            });
            let r = a.wrapping_sub(adjust);
            self.a = r;
            self.set_flags(r == 0, true, false, c);
        }
    }

    /// Executes the CB-prefixed opcode `opcode`.
    fn step_cb<B: GbBus>(&mut self, opcode: u8, mmu: &mut B) -> (n: u32)
        ensures
            (*final(self), final(mmu)@, n) == cb_sem::<B>(opcode, *old(self), old(mmu)@),
            n <= 16,
    {
        reveal(cb_sem);
        let r = opcode % 8;
        let old = self.operand_x(mmu, r);
        let slow: u32 = if r == 6 {
            16
        } else {
            8
        };
        if opcode < 0x40 {
            let (v, carry) = shift_x(opcode / 8, old, self.get_c());
            self.store_x(mmu, r, v);
            self.set_flags(v == 0, false, false, carry);
            slow
        } else if opcode < 0x80 {
            let bit = (opcode - 0x40) / 8;
            let set = old & (1u8 << bit) != 0;
            let c = self.get_c();
            self.set_flags(!set, false, true, c);
            if r == 6 {
                12
            } else {
                8
            }
        } else if opcode < 0xC0 {
            let bit = (opcode - 0x80) / 8;
            self.store_x(mmu, r, old & !(1u8 << bit));
            slow
        } else {
            let bit = (opcode - 0xC0) / 8;
            self.store_x(mmu, r, old | (1u8 << bit));
            slow
        }
    }

    fn call_cc_x<B: GbBus>(&mut self, mmu: &mut B, cc: u8) -> (n: u32)
        ensures
            (*final(self), final(mmu)@, n) == call_cc_sem::<B>(cc, *old(self), old(mmu)@),
    {
        reveal(call_cc_sem);
        let taken = self.cond_x(cc);
        let nn = self.fetch16_x(mmu);
        if taken {
            let ret = self.pc;
            self.push2_x(mmu, (ret / 256) as u8, (ret % 256) as u8);
            self.pc = nn;
            24
        } else {
            12
        }
    }
}

fn shift_x(kind: u8, v: u8, c: bool) -> (r: (u8, bool))
    ensures
        r == shift(kind, v, c),
{
    let cin: u16 = if c {
        1
    } else {
        0
    };
    let w = v as u16;
    if kind == 0 {
        (((2 * w + w / 128) % 256) as u8, v >= 0x80)
    } else if kind == 1 {
        ((w / 2 + (w % 2) * 128) as u8, v % 2 == 1)
    } else if kind == 2 {
        (((2 * w + cin) % 256) as u8, v >= 0x80)
    } else if kind == 3 {
        ((w / 2 + cin * 128) as u8, v % 2 == 1)
    } else if kind == 4 {
        (((2 * w) % 256) as u8, v >= 0x80)
    } else if kind == 5 {
        ((w / 2 + (if v >= 0x80 {
            128u16
        } else {
            0
        })) as u8, v % 2 == 1)
    } else if kind == 6 {
        ((v % 16) * 16 + v / 16, false)
    } else {
        (v / 2, v % 2 == 1)
    }
}

/// `sp_offset` computed on machine integers.
fn sp_offset_x(sp: u16, e: u8) -> (r: (u16, u8))
    ensures
        r == sp_offset(sp, e),
{
    let v = if e < 128 {
        sp.wrapping_add(e as u16)
    } else {
        sp.wrapping_sub(256 - e as u16)
    };
    (v, flags_x(false, false, sp % 16 + (e as u16) % 16 > 15, sp % 256 + e as u16 > 255))
}


impl Cpu {
    /// Executes opcode `op`, PC already moved past it.
    fn execute<B: GbBus>(&mut self, mmu: &mut B, op: u8) -> (n: u32)
        ensures
            (*final(self), final(mmu)@, n) == exec_sem::<B>(op, *old(self), old(mmu)@),
    {
        if 0x40 <= op && op < 0x80 {
            if op == 0x76 {
                let pending = mmu.read_byte(0xFFFF) & mmu.read_byte(0xFF0F) & 0x1F;
                if pending == 0 {
                    self.pc = self.pc.wrapping_sub(1);
                }
                4
            } else {
                self.ld8_x(mmu, op)
            }
        } else if 0x80 <= op && op < 0xC0 {
            self.alu_r_x(mmu, (op - 0x80) / 8, op % 8)
        } else if op < 0x40 && op % 8 == 4 {
            self.inc8_x(mmu, op / 8)
        } else if op < 0x40 && op % 8 == 5 {
            self.dec8_x(mmu, op / 8)
        } else if op < 0x40 && op % 8 == 6 {
            self.ld_imm_x(mmu, op / 8)
        } else if op < 0x40 && op % 16 == 1 {
            let nn = self.fetch16_x(mmu);
            self.set_pair_x(op / 16, nn);
            12
        } else if op < 0x40 && op % 16 == 3 {
            let v = self.pair_x(op / 16).wrapping_add(1);
            self.set_pair_x(op / 16, v);
            8
        } else if op < 0x40 && op % 16 == 0x0B {
            let v = self.pair_x(op / 16).wrapping_sub(1);
            self.set_pair_x(op / 16, v);
            8
        } else if op < 0x40 && op % 16 == 2 {
            self.store_a_x(mmu, op / 16)
        } else if op < 0x40 && op % 16 == 0x0A {
            self.load_a_x(mmu, op / 16)
        } else if op >= 0xC0 && op % 8 == 7 {
            self.rst_x(mmu, (op - 0xC7) as u16)
        } else if op >= 0xC0 && op % 8 == 6 {
            self.alu_imm_x(mmu, (op - 0xC6) / 8)
        } else {
            self.execute_misc(mmu, op)
        }
    }

    fn execute_misc<B: GbBus>(&mut self, mmu: &mut B, op: u8) -> (n: u32)
        ensures
            (*final(self), final(mmu)@, n) == misc_sem::<B>(op, *old(self), old(mmu)@),
    {
        if op < 0xC0 {
            self.execute_misc_low(mmu, op)
        } else {
            self.execute_misc_high(mmu, op)
        }
    }

    fn execute_misc_low<B: GbBus>(&mut self, mmu: &mut B, op: u8) -> (n: u32)
        ensures
            (*final(self), final(mmu)@, n) == misc_low_sem::<B>(op, *old(self), old(mmu)@),
    {
        reveal(misc_low_sem);
        {
            match op {
                0x00 => 4,
                0x07 => {
                    let a = self.a;
                    self.a = a.wrapping_add(a).wrapping_add(a / 128);
                    self.set_flags(false, false, false, a >= 0x80);
                    4
                },
                0x08 => {
                    let nn = self.fetch16_x(mmu);
                    let sp = self.sp;
                    mmu.write_byte(nn, (sp % 256) as u8);
                    mmu.write_byte(nn.wrapping_add(1), (sp / 256) as u8);
                    20
                },
                0x0F => {
                    let (v, carry) = shift_x(1, self.a, false);
                    self.a = v;
                    self.set_flags(false, false, false, carry);
                    4
                },
                0x10 => {
                    self.fetch_x(mmu);
                    4
                },
                0x17 => {
                    let (v, carry) = shift_x(2, self.a, self.get_c());
                    self.a = v;
                    self.set_flags(false, false, false, carry);
                    4
                },
                0x1F => {
                    let (v, carry) = shift_x(3, self.a, self.get_c());
                    self.a = v;
                    self.set_flags(false, false, false, carry);
                    4
                },
                0x09 => {
                    self.add_hl_x(0);
                    8
                },
                0x29 => {
                    self.add_hl_x(2);
                    8
                },
                0x37 => {
                    let z = self.get_z();
                    self.set_flags(z, false, false, true);
                    4
                },
                0x3F => {
                    let z = self.get_z();
                    let c = self.get_c();
                    self.set_flags(z, false, false, !c);
                    4
                },

                0x19 => {
                    self.add_hl_x(1);
                    8
                },
                0x39 => {
                    self.add_hl_x(3);
                    8
                },
                0x18 => self.jr_x(mmu, 4),
                0x20 => self.jr_x(mmu, 0),
                0x28 => self.jr_x(mmu, 1),
                0x30 => self.jr_x(mmu, 2),
                0x38 => self.jr_x(mmu, 3),
                0x27 => {
                    self.daa_x();
                    4
                },
                0x2F => {
                    self.a = !self.a;
                    self.set_n(true);
                    self.set_h(true);
                    4
                },
                _ => 0,
            }
        }
    }

    fn execute_misc_high<B: GbBus>(&mut self, mmu: &mut B, op: u8) -> (n: u32)
        ensures
            (*final(self), final(mmu)@, n) == misc_high_sem::<B>(op, *old(self), old(mmu)@),
    {
        reveal(misc_high_sem);
        {
            match op {
                0xC0 => self.ret_cc_x(mmu, 0),
                0xC8 => self.ret_cc_x(mmu, 1),
                0xD0 => self.ret_cc_x(mmu, 2),
                0xD8 => self.ret_cc_x(mmu, 3),
                0xC9 => {
                    let (hi, lo) = self.pop2_x(mmu);
                    self.pc = (hi as u16) * 256 + (lo as u16);
                    16
                },
                0xD9 => {
                    let (hi, lo) = self.pop2_x(mmu);
                    self.pc = (hi as u16) * 256 + (lo as u16);
                    self.ime = true;
                    16
                },
                0xC1 => self.pop_x(mmu, 0),
                0xD1 => self.pop_x(mmu, 1),
                0xE1 => self.pop_x(mmu, 2),
                0xF1 => self.pop_x(mmu, 3),
                0xC5 => self.push_x(mmu, 0),
                0xD5 => self.push_x(mmu, 1),
                0xE5 => self.push_x(mmu, 2),
                0xF5 => self.push_x(mmu, 3),
                0xC2 => self.jp_x(mmu, 0),
                0xCA => self.jp_x(mmu, 1),
                0xD2 => self.jp_x(mmu, 2),
                0xDA => self.jp_x(mmu, 3),
                0xC3 => self.jp_x(mmu, 4),
                0xCD => self.call_x(mmu),
                0xC4 => self.call_cc_x(mmu, 0),
                0xCC => self.call_cc_x(mmu, 1),
                0xD4 => self.call_cc_x(mmu, 2),
                0xDC => self.call_cc_x(mmu, 3),
                0xCB => {
                    let cb = self.fetch_x(mmu);
                    let n = self.step_cb(cb, mmu);
                    n + 4
                },
                0xE0 => {
                    let n = self.fetch_x(mmu);
                    mmu.write_byte(0xFF00 + n as u16, self.a);
                    12
                },
                0xF0 => {
                    let n = self.fetch_x(mmu);
                    self.a = mmu.read_byte(0xFF00 + n as u16);
                    12
                },
                0xE2 => {
                    mmu.write_byte(0xFF00 + self.c as u16, self.a);
                    8
                },
                0xF2 => {
                    self.a = mmu.read_byte(0xFF00 + self.c as u16);
                    8
                },
                0xE8 => {
                    let e = self.fetch_x(mmu);
                    let (sp, f) = sp_offset_x(self.sp, e);
                    self.sp = sp;
                    self.f = f;
                    16
                },
                0xF8 => {
                    let e = self.fetch_x(mmu);
                    let (v, f) = sp_offset_x(self.sp, e);
                    self.set_hl(v);
                    self.f = f;
                    12
                },
                0xF9 => {
                    self.sp = self.get_hl();
                    8
                },

                0xEA => {
                    let nn = self.fetch16_x(mmu);
                    mmu.write_byte(nn, self.a);
                    16
                },
                0xFA => {
                    let nn = self.fetch16_x(mmu);
                    self.a = mmu.read_byte(nn);
                    16
                },
                0xE9 => {
                    let at = self.pc.wrapping_sub(1);
                    if at < 0x8000 {
                        self.last_rom_pc = at;
                    }
                    self.pc = self.get_hl();
                    4
                },
                0xF3 => {
                    self.ime = false;
                    4
                },
                0xFB => {
                    self.ime = true;
                    4
                },
                _ => 0,
            }
        }
    }

    /// Runs one instruction (or takes one pending interrupt) and returns the
    /// clock cycles it took; 0 means execution stopped (PC inside
    /// 0x8000..0xC000, or an opcode that the SM83 does not define).
    pub fn step<B: GbBus>(&mut self, mmu: &mut B) -> (n: u32)
        ensures
            (*final(self), final(mmu)@, n) == step_sem::<B>(*old(self), old(mmu)@),
    {
        let ie = mmu.read_byte(0xFFFF);
        let iflag = mmu.read_byte(0xFF0F);
        let pending = ie & iflag & 0x1F;
        if self.ime && pending != 0 {
            self.ime = false;
            let (bit, addr): (u8, u16) = if pending & 0x01 != 0 {
                (0x01, 0x0040)
            } else if pending & 0x02 != 0 {
                (0x02, 0x0048)
            } else if pending & 0x04 != 0 {
                (0x04, 0x0050)
            } else if pending & 0x08 != 0 {
                (0x08, 0x0058)
            } else {
                (0x10, 0x0060)
            };
            mmu.write_byte(0xFF0F, iflag & !bit);
            let ret = self.pc;
            self.push2_x(mmu, (ret / 256) as u8, (ret % 256) as u8);
            self.pc = addr;
            return 20;
        }
        if 0x8000 <= self.pc && self.pc < 0xC000 {
            return 0;
        }
        let opcode = self.fetch_x(mmu);
        self.execute(mmu, opcode)
    }
}


// ---------------------------------------------------------------------------
// Laws
// ---------------------------------------------------------------------------
/// Writing a register pair and reading it back gives the value written; AF
/// reads back with the low four bits of F cleared.
pub proof fn lemma_pair_roundtrip(cpu: Cpu, v: u16)
    ensures
        cpu.with_bc(v).bc() == v,
        cpu.with_de(v).de() == v,
        cpu.with_hl(v).hl() == v,
        (Cpu { a: hi_byte(v), f: lo_byte(v) & 0xF0, ..cpu }).af() == v - v % 16,
{
    let lo = lo_byte(v);
    assert(lo & 0xF0 == lo - lo % 16) by (bit_vector);
}

/// After `set_flags(z, n, h, c)` each flag getter returns the value given,
/// and the low four bits of F are zero.
pub proof fn lemma_flags_roundtrip(z: bool, n: bool, h: bool, c: bool)
    ensures
        zf(flag_byte(z, n, h, c)) == z,
        nf(flag_byte(z, n, h, c)) == n,
        hf(flag_byte(z, n, h, c)) == h,
        cf(flag_byte(z, n, h, c)) == c,
        flag_byte(z, n, h, c) & 0x0F == 0,
{
    reveal(flag_byte);
    reveal(with_bit);
    let f = flag_byte(z, n, h, c);
    assert({
        let f0: u8 = if z { 0u8 | 0x80 } else { 0u8 & !0x80u8 };
        let f1: u8 = if n { f0 | 0x40 } else { f0 & !0x40u8 };
        let f2: u8 = if h { f1 | 0x20 } else { f1 & !0x20u8 };
        let f3: u8 = if c { f2 | 0x10 } else { f2 & !0x10u8 };
        &&& (f3 & 0x80 != 0) == z
        &&& (f3 & 0x40 != 0) == n
        &&& (f3 & 0x20 != 0) == h
        &&& (f3 & 0x10 != 0) == c
        &&& f3 & 0x0F == 0
    }) by (bit_vector);
}

proof fn lemma_flag_byte_low()
    ensures
        forall|z: bool, n: bool, h: bool, c: bool| #[trigger] flag_byte(z, n, h, c) & 0x0F == 0,
{
    assert forall|z: bool, n: bool, h: bool, c: bool| #[trigger] flag_byte(z, n, h, c) & 0x0F == 0 by {
        lemma_flags_roundtrip(z, n, h, c);
    }
}

proof fn lemma_with_bit_low()
    ensures
        forall|f: u8, mask: u8, on: bool|
            f & 0x0F == 0 && (mask == Z_FLAG || mask == N_FLAG || mask == H_FLAG || mask == C_FLAG)
                ==> #[trigger] with_bit(f, mask, on) & 0x0F == 0,
        forall|x: u8| #[trigger] (x & 0xF0) & 0x0F == 0,
{
    reveal(with_bit);
    assert forall|f: u8, mask: u8, on: bool|
        f & 0x0F == 0 && (mask == Z_FLAG || mask == N_FLAG || mask == H_FLAG || mask == C_FLAG)
            implies #[trigger] with_bit(f, mask, on) & 0x0F == 0 by {
        assert((f | mask) & 0x0F == 0 && (f & !mask) & 0x0F == 0) by (bit_vector)
            requires
                f & 0x0F == 0,
                mask == 0x80 || mask == 0x40 || mask == 0x20 || mask == 0x10,
        ;
    }
    assert forall|x: u8| #[trigger] (x & 0xF0) & 0x0F == 0 by {
        assert((x & 0xF0) & 0x0F == 0) by (bit_vector);
    }
}

/// Whether every bus write keeps `inv`.
pub open spec fn poke_preserves<B: GbBus>(inv: spec_fn(B::V) -> bool) -> bool {
    forall|m: B::V, a: u16, v: u8| inv(m) ==> #[trigger] inv(B::poke(m, a, v))
}

proof fn lemma_cb_facts<B: GbBus>(op: u8, cpu: Cpu, m: B::V, inv: spec_fn(B::V) -> bool)
    requires
        poke_preserves::<B>(inv),
        inv(m),
    ensures
        cpu.f & 0x0F == 0 ==> cb_sem::<B>(op, cpu, m).0.f & 0x0F == 0,
        cb_sem::<B>(op, cpu, m).2 % 4 == 0,
        cb_sem::<B>(op, cpu, m).2 <= 16,
        inv(cb_sem::<B>(op, cpu, m).1),
{
    reveal(cb_sem);
    lemma_flag_byte_low();
}

proof fn lemma_misc_facts<B: GbBus>(op: u8, cpu: Cpu, m: B::V, inv: spec_fn(B::V) -> bool)
    requires
        poke_preserves::<B>(inv),
        inv(m),
    ensures
        cpu.f & 0x0F == 0 ==> misc_sem::<B>(op, cpu, m).0.f & 0x0F == 0,
        misc_sem::<B>(op, cpu, m).2 % 4 == 0,
        misc_sem::<B>(op, cpu, m).2 <= 24,
        inv(misc_sem::<B>(op, cpu, m).1),
{
    reveal(misc_low_sem);
    reveal(misc_high_sem);
    lemma_flag_byte_low();
    lemma_with_bit_low();
    if op == 0x18 || op == 0x20 || op == 0x28 || op == 0x30 || op == 0x38 {
        reveal(jr_sem);
    } else if op == 0x27 {
        reveal(daa);
    } else if op == 0xC0 || op == 0xC8 || op == 0xD0 || op == 0xD8 {
        reveal(ret_cc_sem);
    } else if op == 0xC1 || op == 0xD1 || op == 0xE1 || op == 0xF1 {
        reveal(pop_sem);
    } else if op == 0xC5 || op == 0xD5 || op == 0xE5 || op == 0xF5 {
        reveal(push_sem);
    } else if op == 0xC2 || op == 0xCA || op == 0xD2 || op == 0xDA || op == 0xC3 {
        reveal(jp_sem);
    } else if op == 0xCD {
        reveal(call_sem);
    } else if op == 0xC4 || op == 0xCC || op == 0xD4 || op == 0xDC {
        reveal(call_cc_sem);
    } else if op == 0x09 || op == 0x19 || op == 0x29 || op == 0x39 {
        reveal(add_hl_sem);
    } else if op == 0xCB {
        let (c1, cb) = fetch::<B>(cpu, m);
        lemma_cb_facts::<B>(cb, c1, m, inv);
    }
}

proof fn lemma_exec_facts<B: GbBus>(op: u8, cpu: Cpu, m: B::V, inv: spec_fn(B::V) -> bool)
    requires
        poke_preserves::<B>(inv),
        inv(m),
    ensures
        cpu.f & 0x0F == 0 ==> exec_sem::<B>(op, cpu, m).0.f & 0x0F == 0,
        exec_sem::<B>(op, cpu, m).2 % 4 == 0,
        exec_sem::<B>(op, cpu, m).2 <= 24,
        inv(exec_sem::<B>(op, cpu, m).1),
{
    lemma_flag_byte_low();
    lemma_with_bit_low();
    if 0x40 <= op < 0x80 {
        reveal(ld8_sem);
    } else if 0x80 <= op < 0xC0 {
        reveal(alu_sem);
    } else if op < 0x40 && op % 8 == 4 {
        reveal(inc8_sem);
    } else if op < 0x40 && op % 8 == 5 {
        reveal(dec8_sem);
    } else if op < 0x40 && op % 8 == 6 {
        reveal(ld_imm_sem);
    } else if op < 0x40 && op % 16 == 2 {
        reveal(store_a_sem);
    } else if op < 0x40 && op % 16 == 0x0A {
        reveal(load_a_sem);
    } else if op >= 0xC0 && op % 8 == 7 {
        reveal(rst_sem);
    } else if op >= 0xC0 && op % 8 == 6 {
        reveal(alu_imm_sem);
    } else {
        lemma_misc_facts::<B>(op, cpu, m, inv);
    }
}

/// Every step keeps the low four bits of F at zero, and takes a whole
/// number of machine cycles (a multiple of 4 clock cycles, at most 24).
pub proof fn lemma_step_invariants<B: GbBus>(cpu: Cpu, m: B::V)
    requires
        cpu.f & 0x0F == 0,
    ensures
        step_sem::<B>(cpu, m).0.f & 0x0F == 0,
        step_sem::<B>(cpu, m).2 % 4 == 0,
        step_sem::<B>(cpu, m).2 <= 24,
{
    let (c1, op) = fetch::<B>(cpu, m);
    let inv = |x: B::V| true;
    lemma_exec_facts::<B>(op, c1, m, inv);
}

/// A property of the bus that every single write keeps is kept by a whole
/// step of the processor, whatever the step does.
pub proof fn lemma_step_bus_invariant<B: GbBus>(cpu: Cpu, m: B::V, inv: spec_fn(B::V) -> bool)
    requires
        poke_preserves::<B>(inv),
        inv(m),
    ensures
        inv(step_sem::<B>(cpu, m).1),
        step_sem::<B>(cpu, m).2 <= 24,
{
    let (c1, op) = fetch::<B>(cpu, m);
    lemma_exec_facts::<B>(op, c1, m, inv);
    let ie = B::peek(m, 0xFFFF);
    let iflag = B::peek(m, 0xFF0F);
    let pending = ie & iflag & 0x1F;
    if cpu.ime && pending != 0 {
        let (bit, addr) = irq_vector(pending);
        let m1 = B::poke(m, 0xFF0F, iflag & !bit);
        let sp1 = wadd16(cpu.sp, -1);
        let m2 = B::poke(m1, sp1, hi_byte(cpu.pc));
        assert(inv(m2));
    }
}

/// Whether both nibbles of `x` are decimal digits (packed BCD).
pub open spec fn is_bcd(x: u8) -> bool {
    x / 16 <= 9 && x % 16 <= 9
}

/// The number that the packed BCD byte `x` stands for.
pub open spec fn bcd_value(x: u8) -> int {
    (x / 16) as int * 10 + (x % 16) as int
}

/// The packed BCD byte of `n` (0..=99).
pub open spec fn bcd_byte(n: int) -> u8 {
    ((n / 10) * 16 + n % 10) as u8
}

/// `ADD` of two packed BCD bytes followed by `DAA` gives the BCD form of the
/// decimal sum when it is below 100, with Z the only flag that can be set
/// (whatever the flags were before the addition).
pub proof fn lemma_daa_after_add(x: u8, y: u8, f: u8)
    requires
        is_bcd(x),
        is_bcd(y),
        bcd_value(x) + bcd_value(y) <= 99,
    ensures
        ({
            let (a1, f1) = alu(0, x, y, f);
            let r = bcd_byte(bcd_value(x) + bcd_value(y));
            daa(a1, f1) == (r, flag_byte(r == 0, false, false, false))
        }),
{
    reveal(daa);
    let xh = (x / 16) as int;
    let xl = (x % 16) as int;
    let yh = (y / 16) as int;
    let yl = (y % 16) as int;
    let s = xh + yh;
    let t = xl + yl;
    assert(x as int == 16 * xh + xl && y as int == 16 * yh + yl);
    assert(s <= 9);
    let a1 = wadd8(x, y as int);
    assert(a1 as int == 16 * s + t);
    let half = xl + yl > 15;
    lemma_flags_roundtrip(a1 == 0, false, half, false);
    let f1 = flag_byte(a1 == 0, false, half, false);
    assert(alu(0, x, y, f) == (a1, f1));
    let n = 10 * s + t;
    assert(bcd_value(x) + bcd_value(y) == n);
    if t <= 9 {
        assert(n / 10 == s && n % 10 == t);
        assert(a1 as int % 16 == t);
    } else if t <= 15 {
        assert(n / 10 == s + 1 && n % 10 == t - 10);
        assert(a1 as int % 16 == t);
        assert(s <= 8);
    } else {
        assert(n / 10 == s + 1 && n % 10 == t - 10);
        assert(a1 as int == 16 * (s + 1) + (t - 16));
        assert(a1 as int % 16 == t - 16);
        assert(s <= 8);
    }
}

/// A program `ADD A, y` then `DAA` on packed BCD operands whose decimal sum
/// is below 100 leaves that sum in BCD in A, with Z the only flag that can
/// be set, after 8 and 4 cycles, and writes nothing.
#[verifier::spinoff_prover]
pub proof fn lemma_step_add_then_daa<B: GbBus>(cpu: Cpu, m: B::V, y: u8)
    requires
        is_bcd(cpu.a),
        is_bcd(y),
        bcd_value(cpu.a) + bcd_value(y) <= 99,
        !cpu.ime,
        cpu.pc + 3 <= 0x8000 || (0xC000 <= cpu.pc && cpu.pc + 3 <= 0x10000),
        B::peek(m, cpu.pc) == 0xC6,
        B::peek(m, (cpu.pc + 1) as u16) == y,
        B::peek(m, (cpu.pc + 2) as u16) == 0x27,
    ensures
        ({
            let (c1, m1, n1) = step_sem::<B>(cpu, m);
            let (c2, m2, n2) = step_sem::<B>(c1, m1);
            let r = bcd_byte(bcd_value(cpu.a) + bcd_value(y));
            &&& n1 == 8 && n2 == 4
            &&& c2.a == r
            &&& c2.f == flag_byte(r == 0, false, false, false)
            &&& c2.pc == wadd16(cpu.pc, 3)
            &&& m2 == m
        }),
{
    reveal(alu_imm_sem);
    reveal(misc_low_sem);
    lemma_daa_after_add(cpu.a, y, cpu.f);
    let (c0, op0) = fetch::<B>(cpu, m);
    assert(op0 == 0xC6);
    let (c1, m1, n1) = step_sem::<B>(cpu, m);
    assert(c1.pc == cpu.pc + 2 && m1 == m && !c1.ime && n1 == 8);
    assert(c1.a == alu(0, cpu.a, y, cpu.f).0 && c1.f == alu(0, cpu.a, y, cpu.f).1);
    let (c1b, op1) = fetch::<B>(c1, m1);
    assert(op1 == 0x27);
    assert(c1b.pc == wadd16(cpu.pc, 3));
    assert(exec_sem::<B>(0x27, c1b, m1) == misc_low_sem::<B>(0x27, c1b, m1));
    let (a2, f2) = daa(c1b.a, c1b.f);
    assert(misc_low_sem::<B>(0x27, c1b, m1) == (Cpu { a: a2, f: f2, ..c1b }, m1, 4u32));
    assert(step_sem::<B>(c1, m1) == exec_sem::<B>(0x27, c1b, m1));
}

/// Adding two offsets to a word one after the other is adding their sum.
pub proof fn lemma_wadd16_twice(x: u16, a: int, b: int)
    ensures
        wadd16(wadd16(x, a), b) == wadd16(x, a + b),
{
    lemma_add_mod_noop_right(b, x + a, 65536);
}

/// Whether the condition of the conditional opcode `op` holds for flags
/// `f`: bits 3-4 of the opcode pick NZ, Z, NC or C, that is the zero flag
/// (bit 7 of F) for 0 and 1 and the carry flag (bit 4) for 2 and 3, the
/// odd ones asking for the flag set and the even ones for it clear.
pub open spec fn cc_holds(op: u8, f: u8) -> bool {
    let cc = (op as int / 8) % 4;
    let flag_set = if cc < 2 {
        f & 0x80 != 0
    } else {
        f & 0x10 != 0
    };
    flag_set == (cc % 2 == 1)
}

/// The processor takes no interrupt and is outside the cartridge window,
/// so that the next step executes the opcode at PC.
pub open spec fn runs_opcode<B: GbBus>(cpu: Cpu, m: B::V) -> bool {
    &&& !cpu.ime || B::peek(m, 0xFFFF) & B::peek(m, 0xFF0F) & 0x1F == 0
    &&& !(0x8000 <= cpu.pc < 0xC000)
}

/// `JR NZ/Z/NC/C, e` (0x20, 0x28, 0x30, 0x38) jumps to the address after
/// its two bytes plus the signed offset `e` in 12 cycles exactly when its
/// condition holds, and otherwise goes on after it in 8 cycles; nothing
/// else changes.
#[verifier::spinoff_prover]
pub proof fn lemma_jr_cc<B: GbBus>(cpu: Cpu, m: B::V)
    requires
        runs_opcode::<B>(cpu, m),
        B::peek(m, cpu.pc) == 0x20 || B::peek(m, cpu.pc) == 0x28 || B::peek(m, cpu.pc) == 0x30
            || B::peek(m, cpu.pc) == 0x38,
    ensures
        ({
            let op = B::peek(m, cpu.pc);
            let e = B::peek(m, wadd16(cpu.pc, 1));
            let taken = cc_holds(op, cpu.f);
            let (c1, m1, n) = step_sem::<B>(cpu, m);
            &&& m1 == m
            &&& c1 == (Cpu {
                pc: if taken {
                    wadd16(cpu.pc, 2 + signed8(e))
                } else {
                    wadd16(cpu.pc, 2)
                },
                ..cpu
            })
            &&& n == (if taken {
                12u32
            } else {
                8u32
            })
        }),
{
    reveal(misc_low_sem);
    reveal(jr_sem);
    lemma_wadd16_twice(cpu.pc, 1, 1);
    lemma_wadd16_twice(cpu.pc, 2, signed8(B::peek(m, wadd16(cpu.pc, 1))));
    assert(Z_FLAG == 0x80 && C_FLAG == 0x10);
}

/// `JP NZ/Z/NC/C, nn` (0xC2, 0xCA, 0xD2, 0xDA) jumps to the little-endian
/// word after the opcode in 16 cycles exactly when its condition holds, and
/// otherwise goes on after its three bytes in 12 cycles; nothing else
/// changes.
#[verifier::spinoff_prover]
pub proof fn lemma_jp_cc<B: GbBus>(cpu: Cpu, m: B::V)
    requires
        runs_opcode::<B>(cpu, m),
        B::peek(m, cpu.pc) == 0xC2 || B::peek(m, cpu.pc) == 0xCA || B::peek(m, cpu.pc) == 0xD2
            || B::peek(m, cpu.pc) == 0xDA,
    ensures
        ({
            let op = B::peek(m, cpu.pc);
            let nn = word(B::peek(m, wadd16(cpu.pc, 2)), B::peek(m, wadd16(cpu.pc, 1)));
            let taken = cc_holds(op, cpu.f);
            let (c1, m1, n) = step_sem::<B>(cpu, m);
            &&& m1 == m
            &&& c1 == (Cpu {
                pc: if taken {
                    nn
                } else {
                    wadd16(cpu.pc, 3)
                },
                ..cpu
            })
            &&& n == (if taken {
                16u32
            } else {
                12u32
            })
        }),
{
    reveal(misc_high_sem);
    reveal(jp_sem);
    lemma_wadd16_twice(cpu.pc, 1, 1);
    lemma_wadd16_twice(cpu.pc, 2, 1);
    assert(Z_FLAG == 0x80 && C_FLAG == 0x10);
}

/// `CALL NZ/Z/NC/C, nn` (0xC4, 0xCC, 0xD4, 0xDC): when its condition holds,
/// the address after its three bytes is pushed (high byte first, below SP)
/// and PC jumps to `nn` in 24 cycles; otherwise it goes on after its three
/// bytes in 12 cycles, writing nothing.
#[verifier::spinoff_prover]
pub proof fn lemma_call_cc<B: GbBus>(cpu: Cpu, m: B::V)
    requires
        runs_opcode::<B>(cpu, m),
        B::peek(m, cpu.pc) == 0xC4 || B::peek(m, cpu.pc) == 0xCC || B::peek(m, cpu.pc) == 0xD4
            || B::peek(m, cpu.pc) == 0xDC,
    ensures
        ({
            let op = B::peek(m, cpu.pc);
            let nn = word(B::peek(m, wadd16(cpu.pc, 2)), B::peek(m, wadd16(cpu.pc, 1)));
            let ret = wadd16(cpu.pc, 3);
            let taken = cc_holds(op, cpu.f);
            let (c1, m1, n) = step_sem::<B>(cpu, m);
            if taken {
                &&& c1 == (Cpu { pc: nn, sp: wadd16(cpu.sp, -2), ..cpu })
                &&& m1 == B::poke(
                    B::poke(m, wadd16(cpu.sp, -1), hi_byte(ret)),
                    wadd16(cpu.sp, -2),
                    lo_byte(ret),
                )
                &&& n == 24
            } else {
                &&& c1 == (Cpu { pc: ret, ..cpu })
                &&& m1 == m
                &&& n == 12
            }
        }),
{
    reveal(misc_high_sem);
    reveal(call_cc_sem);
    lemma_wadd16_twice(cpu.pc, 1, 1);
    lemma_wadd16_twice(cpu.pc, 2, 1);
    lemma_wadd16_twice(cpu.sp, -1, -1);
    assert(Z_FLAG == 0x80 && C_FLAG == 0x10);
}

/// `RET NZ/Z/NC/C` (0xC0, 0xC8, 0xD0, 0xD8): when its condition holds, PC
/// is popped (low byte at SP, high byte above it) and SP moves up by two in
/// 20 cycles; otherwise it goes on after its one byte in 8 cycles. Nothing
/// is written.
#[verifier::spinoff_prover]
pub proof fn lemma_ret_cc<B: GbBus>(cpu: Cpu, m: B::V)
    requires
        runs_opcode::<B>(cpu, m),
        B::peek(m, cpu.pc) == 0xC0 || B::peek(m, cpu.pc) == 0xC8 || B::peek(m, cpu.pc) == 0xD0
            || B::peek(m, cpu.pc) == 0xD8,
    ensures
        ({
            let op = B::peek(m, cpu.pc);
            let taken = cc_holds(op, cpu.f);
            let (c1, m1, n) = step_sem::<B>(cpu, m);
            &&& m1 == m
            &&& c1 == (if taken {
                Cpu {
                    pc: word(B::peek(m, wadd16(cpu.sp, 1)), B::peek(m, cpu.sp)),
                    sp: wadd16(cpu.sp, 2),
                    ..cpu
                }
            } else {
                Cpu { pc: wadd16(cpu.pc, 1), ..cpu }
            })
            &&& n == (if taken {
                20u32
            } else {
                8u32
            })
        }),
{
    reveal(misc_high_sem);
    reveal(ret_cc_sem);
    lemma_wadd16_twice(cpu.sp, 1, 1);
    assert(Z_FLAG == 0x80 && C_FLAG == 0x10);
}

/// Eight-bit addition and subtraction: the result and the carry (borrow)
/// together are the exact sum or difference of A, the operand and, for ADC
/// and SBC, the carry in; N is set for the subtractions only and Z says
/// the result is zero.
pub proof fn lemma_alu_arith(op: u8, a: u8, v: u8, f: u8)
    requires
        op < 4,
    ensures
        ({
            let (r, g) = alu(op, a, v, f);
            let cin: int = if op % 2 == 1 && f & 0x10 != 0 {
                1
            } else {
                0
            };
            let cout: int = if g & 0x10 != 0 {
                1
            } else {
                0
            };
            &&& op < 2 ==> r as int + 256 * cout == a as int + v as int + cin
            &&& op >= 2 ==> r as int - 256 * cout == a as int - v as int - cin
            &&& (g & 0x40 != 0) == (op >= 2)
            &&& (g & 0x80 != 0) == (r == 0)
            &&& g & 0x0F == 0
        }),
{
    let (r, g) = alu(op, a, v, f);
    assert(C_FLAG == 0x10);
    if op == 0 {
        lemma_flags_roundtrip(r == 0, false, a as int % 16 + v as int % 16 > 15, a as int + v as int > 255);
    } else if op == 1 {
        let c = carry_in(f);
        lemma_flags_roundtrip(r == 0, false, a as int % 16 + v as int % 16 + c > 15, a as int + v as int + c > 255);
    } else if op == 2 {
        lemma_flags_roundtrip(r == 0, true, a as int % 16 < v as int % 16, a < v);
    } else {
        let c = carry_in(f);
        lemma_flags_roundtrip(r == 0, true, a as int % 16 < v as int % 16 + c, a < v as int + c);
    }
}

/// `CP` sets the flags exactly as `SUB` would and leaves A alone.
pub proof fn lemma_cp_is_sub(a: u8, v: u8, f: u8)
    ensures
        alu(7, a, v, f) == (a, alu(2, a, v, f).1),
{
}

/// RRC undoes RLC.
pub proof fn lemma_rrc_undoes_rlc(v: u8, c: bool, d: bool)
    ensures
        shift(1, shift(0, v, c).0, d).0 == v,
{
    let w = v as int;
    let r = if w < 128 {
        2 * w
    } else {
        2 * w - 255
    };
    assert((2 * w + w / 128) % 256 == r);
    assert(shift(0, v, c).0 as int == r);
    assert(r / 2 + (r % 2) * 128 == w);
}

/// RR undoes RL, the carry included.
pub proof fn lemma_rr_undoes_rl(v: u8, c: bool)
    ensures
        ({
            let (r1, c1) = shift(2, v, c);
            shift(3, r1, c1) == (v, c)
        }),
{
    let w = v as int;
    let cin: int = if c {
        1
    } else {
        0
    };
    let r = if w < 128 {
        2 * w + cin
    } else {
        2 * w + cin - 256
    };
    assert((2 * w + cin) % 256 == r);
    assert(shift(2, v, c).0 as int == r);
    assert(r / 2 + (if w >= 128 { 1int } else { 0 }) * 128 == w);
    assert((r % 2 == 1) == c);
}

/// SWAP twice gives back the byte.
pub proof fn lemma_swap_twice(v: u8, c: bool, d: bool)
    ensures
        shift(6, shift(6, v, c).0, d).0 == v,
{
    let w = v as int;
    assert(swap_nibbles(v) as int == (w % 16) * 16 + w / 16);
    assert(swap_nibbles(swap_nibbles(v)) as int == (w / 16) * 16 + w % 16);
}

/// SRL after SLA drops just bit 7; SRA halves keeping the sign bit.
pub proof fn lemma_sla_srl_sra(v: u8, c: bool, d: bool)
    ensures
        shift(7, shift(4, v, c).0, d).0 == v % 128,
        (shift(5, v, c).0 >= 0x80) == (v >= 0x80),
        shift(5, v, c).0 % 128 == v / 2,
{
    let w = v as int;
    assert(shift(4, v, c).0 as int == (2 * w) % 256);
    assert((2 * w) % 256 == 2 * (w % 128));
}

} // verus!
