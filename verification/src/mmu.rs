//! A flat 64 KiB Game Boy memory map with joypad, divider, timer, serial
//! port and OAM DMA.
use vstd::prelude::*;
use crate::cpu::{GbBus, wadd8};
use vstd::arithmetic::div_mod::{lemma_fundamental_div_mod, lemma_fundamental_div_mod_converse};

verus! {

pub struct Mmu {
    memory: [u8; 65536],
    /// bit3=Start bit2=Select bit1=B bit0=A (0 = pressed)
    buttons: u8,
    /// bit3=Down bit2=Up bit1=Left bit0=Right (0 = pressed)
    dpad: u8,
    pub div_cycles: u32,
    tima_counter: u32,
    serial: Vec<u8>,
}

/// What a memory map holds, as seen by its contracts.
pub struct MmuView {
    pub memory: Seq<u8>,
    pub buttons: u8,
    pub dpad: u8,
    pub div_cycles: u32,
    pub tima_counter: u32,
    /// Bytes sent out through the serial port, oldest first.
    pub serial: Seq<u8>,
}

impl View for Mmu {
    type V = MmuView;

    closed spec fn view(&self) -> MmuView {
        MmuView {
            memory: self.memory@,
            buttons: self.buttons,
            dpad: self.dpad,
            div_cycles: self.div_cycles,
            tima_counter: self.tima_counter,
            serial: self.serial@,
        }
    }
}

/// The joypad register P1 for select bits `select` and the pressed-low
/// button and direction nibbles.
pub open spec fn joypad_byte(select: u8, buttons: u8, dpad: u8) -> u8 {
    let lo1: u8 = if select & 0x20 == 0 {
        0x0F & buttons
    } else {
        0x0F
    };
    let lo2: u8 = if select & 0x10 == 0 {
        lo1 & dpad
    } else {
        lo1
    };
    0xC0 | (select & 0x30) | lo2
}

/// The timer input period in clock cycles selected by TAC.
pub open spec fn timer_period(tac: u8) -> u32 {
    let sel = tac & 0x03;
    if sel == 0 {
        1024
    } else if sel == 1 {
        16
    } else if sel == 2 {
        64
    } else {
        256
    }
}

/// One TIMA increment: on overflow TIMA reloads from TMA and the timer
/// interrupt is requested. Returns the new TIMA and IF.
pub open spec fn tima_tick(tima: u8, tma: u8, iflag: u8) -> (u8, u8) {
    let t = wadd8(tima, 1);
    if t == 0 {
        (tma, iflag | 0x04)
    } else {
        (t, iflag)
    }
}

/// `k` TIMA increments.
pub open spec fn tima_run(tima: u8, tma: u8, iflag: u8, k: nat) -> (u8, u8)
    decreases k,
{
    if k == 0 {
        (tima, iflag)
    } else {
        let (t, i) = tima_run(tima, tma, iflag, (k - 1) as nat);
        tima_tick(t, tma, i)
    }
}

/// Divider and timer after `cycles` clock cycles: the new memory, divider
/// counter and timer counter.
pub open spec fn timer_sem(memory: Seq<u8>, div_cycles: u32, tima_counter: u32, cycles: u32) -> (
    Seq<u8>,
    u32,
    u32,
) {
    let total = div_cycles + cycles;
    let mem1 = memory.update(0xFF04, wadd8(memory[0xFF04], total / 256));
    let tac = mem1[0xFF07];
    if tac & 0x04 == 0 {
        (mem1, (total % 256) as u32, tima_counter)
    } else {
        let period = timer_period(tac);
        let total2 = tima_counter + cycles;
        let (tima, iflag) = tima_run(mem1[0xFF05], mem1[0xFF06], mem1[0xFF0F], (total2 / period as int) as nat);
        (mem1.update(0xFF05, tima).update(0xFF0F, iflag), (total % 256) as u32, (total2 % period as int) as u32)
    }
}

/// Memory after an OAM DMA transfer from page `value`.
pub open spec fn dma_sem(memory: Seq<u8>, value: u8) -> Seq<u8> {
    let src = value as int * 256;
    Seq::new(
        memory.len(),
        |i: int|
            if 0xFE00 <= i < 0xFEA0 {
                memory[src + i - 0xFE00]
            } else if i == 0xFF46 {
                value
            } else {
                memory[i]
            },
    )
}

impl Mmu {
    pub closed spec fn wf(self) -> bool {
        self.memory@.len() == 65536
    }

    /// Memory after `write_byte(addr, value)`.
    pub open spec fn write_sem(m: MmuView, addr: u16, value: u8) -> MmuView {
        if addr < 0x8000 {
            m
        } else if addr == 0xFF04 {
            MmuView { memory: m.memory.update(0xFF04, 0), div_cycles: 0, ..m }
        } else if addr == 0xFF00 {
            MmuView { memory: m.memory.update(0xFF00, value & 0x30), ..m }
        } else if addr == 0xFF02 && value & 0x80 != 0 {
            MmuView {
                memory: m.memory.update(0xFF02, value),
                serial: m.serial.push(m.memory[0xFF01]),
                ..m
            }
        } else if addr == 0xFF46 {
            MmuView { memory: dma_sem(m.memory, value), ..m }
        } else {
            MmuView { memory: m.memory.update(addr as int, value), ..m }
        }
    }

    pub fn new() -> (r: Self)
        ensures
            r@.memory == Seq::new(65536, |i: int| 0u8),
            r@.buttons == 0x0F,
            r@.dpad == 0x0F,
            r@.div_cycles == 0,
            r@.tima_counter == 0,
            r@.serial == Seq::<u8>::empty(),
    {
        let r = Self {
            memory: [0; 65536],
            buttons: 0x0F,
            dpad: 0x0F,
            div_cycles: 0,
            tima_counter: 0,
            serial: Vec::new(),
        };
        assert(r@.memory =~= Seq::new(65536, |i: int| 0u8));
        r
    }

    /// Records the joypad state (pressed = 0, low nibble of each argument).
    pub fn set_joypad(&mut self, buttons: u8, dpad: u8)
        ensures
            final(self)@ == (MmuView { buttons: buttons & 0x0F, dpad: dpad & 0x0F, ..old(self)@ }),
    {
        self.buttons = buttons & 0x0F;
        self.dpad = dpad & 0x0F;
    }

    pub fn read_byte(&self, addr: u16) -> (r: u8)
        ensures
            r == (if addr == 0xFF00 {
                joypad_byte(self@.memory[0xFF00], self@.buttons, self@.dpad)
            } else {
                self@.memory[addr as int]
            }),
    {
        if addr == 0xFF00 {
            let select = self.memory[0xFF00];
            let mut lo: u8 = 0x0F;
            if select & 0x20 == 0 {
                lo &= self.buttons;
            }
            if select & 0x10 == 0 {
                lo &= self.dpad;
            }
            return 0xC0 | (select & 0x30) | lo;
        }
        self.memory[addr as usize]
    }

    pub fn write_byte(&mut self, addr: u16, value: u8)
        ensures
            final(self)@ == Self::write_sem(old(self)@, addr, value),
    {
        if addr < 0x8000 {
            return;
        }
        if addr == 0xFF04 {
            self.memory[0xFF04] = 0;
            self.div_cycles = 0;
            return;
        }
        if addr == 0xFF00 {
            self.memory[0xFF00] = value & 0x30;
            return;
        }
        if addr == 0xFF02 && value & 0x80 != 0 {
            let c = self.memory[0xFF01];
            self.serial.push(c);
        }
        if addr == 0xFF46 {
            let src: u16 = (value as u16) * 256;
            let ghost old_mem = self.memory@;
            let mut i: u16 = 0;
            while i < 160
                invariant
                    0 <= i <= 160,
                    src == value as int * 256,
                    old_mem.len() == 65536,
                    self.memory@.len() == 65536,
                    self.serial@ == old(self).serial@,
                    self.buttons == old(self).buttons,
                    self.dpad == old(self).dpad,
                    self.div_cycles == old(self).div_cycles,
                    self.tima_counter == old(self).tima_counter,
                    old_mem == old(self).memory@,
                    forall|j: int|
                        0 <= j < 65536 ==> #[trigger] self.memory@[j] == (if 0xFE00 <= j < 0xFE00 + i {
                            old_mem[src + j - 0xFE00]
                        } else {
                            old_mem[j]
                        }),
                decreases 160 - i,
            {
                let b = self.memory[(src + i) as usize];
                self.memory[0xFE00 + i as usize] = b;
                i = i + 1;
            }
            self.memory[0xFF46] = value;
            assert(self@.memory =~= dma_sem(old(self)@.memory, value));
            return;
        }
        self.memory[addr as usize] = value;
    }

    /// Advances the divider and the timer by `cycles` clock cycles.
    pub fn tick(&mut self, cycles: u32)
        requires
            old(self)@.div_cycles + cycles <= u32::MAX,
            old(self)@.tima_counter + cycles <= u32::MAX,
        ensures
            (final(self)@.memory, final(self)@.div_cycles, final(self)@.tima_counter) == timer_sem(
                old(self)@.memory,
                old(self)@.div_cycles,
                old(self)@.tima_counter,
                cycles,
            ),
            final(self)@.buttons == old(self)@.buttons,
            final(self)@.dpad == old(self)@.dpad,
            final(self)@.serial == old(self)@.serial,
    {
        let (mem, d, t) = timer_step(self.memory, self.div_cycles, self.tima_counter, cycles);
        self.memory = mem;
        self.div_cycles = d;
        self.tima_counter = t;
    }

    /// Bytes sent through the serial port since the last call, oldest first;
    /// the record is emptied.
    pub fn take_serial(&mut self) -> (r: Vec<u8>)
        ensures
            r@ == old(self)@.serial,
            final(self)@ == (MmuView { serial: Seq::empty(), ..old(self)@ }),
    {
        let mut out = Vec::new();
        std::mem::swap(&mut out, &mut self.serial);
        out
    }

    /// Copies a ROM image to the start of memory (at most 64 KiB of it).
    pub fn load_rom(&mut self, bytes: &[u8])
        ensures
            final(self)@ == (MmuView {
                memory: Seq::new(
                    65536,
                    |i: int|
                        if i < bytes@.len() {
                            bytes@[i]
                        } else {
                            old(self)@.memory[i]
                        },
                ),
                ..old(self)@
            }),
    {
        let n = if bytes.len() < 65536 {
            bytes.len()
        } else {
            65536
        };
        let mut i: usize = 0;
        while i < n
            invariant
                0 <= i <= n,
                n <= 65536,
                n <= bytes@.len(),
                n == bytes@.len() || n == 65536,
                self.memory@.len() == 65536,
                self.buttons == old(self).buttons,
                self.dpad == old(self).dpad,
                self.div_cycles == old(self).div_cycles,
                self.tima_counter == old(self).tima_counter,
                self.serial@ == old(self).serial@,
                forall|j: int|
                    0 <= j < 65536 ==> #[trigger] self.memory@[j] == (if j < i {
                        bytes@[j]
                    } else {
                        old(self).memory@[j]
                    }),
            decreases n - i,
        {
            self.memory[i] = bytes[i];
            i = i + 1;
        }
        assert(self@.memory =~= Seq::new(
            65536,
            |i: int|
                if i < bytes@.len() {
                    bytes@[i]
                } else {
                    old(self)@.memory[i]
                },
        ));
    }
}

/// The divider and timer part of `tick`, on the memory array.
pub fn timer_step(memory: [u8; 65536], div_cycles: u32, tima_counter: u32, cycles: u32) -> (r: (
    [u8; 65536],
    u32,
    u32,
))
    requires
        div_cycles + cycles <= u32::MAX,
        tima_counter + cycles <= u32::MAX,
    ensures
        (r.0@, r.1, r.2) == timer_sem(memory@, div_cycles, tima_counter, cycles),
{
    let mut memory = memory;
    let ghost mem0 = memory@;
    let ghost total = div_cycles + cycles;
    let mut div = div_cycles + cycles;
    let ghost mut j: int = 0;
    while div >= 256
        invariant
            div + 256 * j == total,
            0 <= j,
            0 <= div,
            memory@ == mem0.update(0xFF04, wadd8(mem0[0xFF04], j)),
            mem0.len() == 65536,
        decreases div,
    {
        div = div - 256;
        memory[0xFF04] = memory[0xFF04].wrapping_add(1);
        proof {
            j = j + 1;
        }
    }
    proof {
        lemma_fundamental_div_mod_converse(total, 256, j, div as int);
    }
    let tac = memory[0xFF07];
    if tac & 0x04 == 0 {
        return (memory, div, tima_counter);
    }
    let sel = tac & 0x03;
    let period: u32 = if sel == 0 {
        1024
    } else if sel == 1 {
        16
    } else if sel == 2 {
        64
    } else {
        256
    };
    let ghost mem1 = memory@;
    let ghost total2 = tima_counter + cycles;
    let mut counter = tima_counter + cycles;
    let ghost mut k: nat = 0;
    while counter >= period
        invariant
            period == timer_period(tac),
            period > 0,
            tac == mem1[0xFF07],
            counter + k * period == total2,
            0 <= counter,
            mem1.len() == 65536,
            memory@ == mem1.update(0xFF05, tima_run(mem1[0xFF05], mem1[0xFF06], mem1[0xFF0F], k).0).update(
                0xFF0F,
                tima_run(mem1[0xFF05], mem1[0xFF06], mem1[0xFF0F], k).1,
            ),
        decreases counter,
    {
        counter = counter - period;
        let tima = memory[0xFF05].wrapping_add(1);
        if tima == 0 {
            memory[0xFF05] = memory[0xFF06];
            memory[0xFF0F] = memory[0xFF0F] | 0x04;
        } else {
            memory[0xFF05] = tima;
        }
        proof {
            k = k + 1;
        }
        assert(memory@ =~= mem1.update(0xFF05, tima_run(mem1[0xFF05], mem1[0xFF06], mem1[0xFF0F], k).0).update(
            0xFF0F,
            tima_run(mem1[0xFF05], mem1[0xFF06], mem1[0xFF0F], k).1,
        ));
    }
    proof {
        lemma_fundamental_div_mod_converse(total2, period as int, k as int, counter as int);
    }
    (memory, div, counter)
}

impl GbBus for Mmu {
    open spec fn peek(m: MmuView, addr: u16) -> u8 {
        if addr == 0xFF00 {
            joypad_byte(m.memory[0xFF00], m.buttons, m.dpad)
        } else {
            m.memory[addr as int]
        }
    }

    open spec fn poke(m: MmuView, addr: u16, value: u8) -> MmuView {
        Mmu::write_sem(m, addr, value)
    }

    fn read_byte(&self, addr: u16) -> (r: u8) {
        Mmu::read_byte(self, addr)
    }

    fn write_byte(&mut self, addr: u16, value: u8) {
        Mmu::write_byte(self, addr, value)
    }
}


// ---------------------------------------------------------------------------
// Laws
// ---------------------------------------------------------------------------
/// A byte written at 0x8000 or above reads back, except at the joypad,
/// serial control, divider and DMA registers.
pub proof fn lemma_ram_roundtrip(m: MmuView, addr: u16, v: u8)
    requires
        m.memory.len() == 65536,
        addr >= 0x8000,
        addr != 0xFF00 && addr != 0xFF02 && addr != 0xFF04 && addr != 0xFF46,
    ensures
        Mmu::write_sem(m, addr, v).memory[addr as int] == v,
{
}

/// Writes below 0x8000 (the ROM) change nothing.
pub proof fn lemma_rom_read_only(m: MmuView, addr: u16, v: u8)
    requires
        addr < 0x8000,
    ensures
        Mmu::write_sem(m, addr, v) == m,
{
}

/// Splitting a count of whole units: the units in `x`, plus those in the
/// remainder of `x` with `b` more, are the units in `x + b`; the remainders
/// agree.
proof fn lemma_div_split(x: int, b: int, p: int)
    requires
        x >= 0,
        b >= 0,
        p > 0,
    ensures
        x / p + (x % p + b) / p == (x + b) / p,
        (x % p + b) % p == (x + b) % p,
{
    let q = x / p;
    let r = x % p;
    let s = (r + b) / p;
    let t = (r + b) % p;
    lemma_fundamental_div_mod(x, p);
    lemma_fundamental_div_mod(r + b, p);
    assert(x + b == (q + s) * p + t) by (nonlinear_arith)
        requires
            x == p * q + r,
            r + b == p * s + t,
    ;
    lemma_fundamental_div_mod_converse(x + b, p, q + s, t);
}

/// `k1` TIMA increments and then `k2` more are `k1 + k2` increments.
proof fn lemma_tima_run_split(tima: u8, tma: u8, iflag: u8, k1: nat, k2: nat)
    ensures
        ({
            let (t1, i1) = tima_run(tima, tma, iflag, k1);
            tima_run(t1, tma, i1, k2) == tima_run(tima, tma, iflag, k1 + k2)
        }),
    decreases k2,
{
    if k2 > 0 {
        lemma_tima_run_split(tima, tma, iflag, k1, (k2 - 1) as nat);
        assert((k1 + k2 - 1) as nat == k1 + (k2 - 1) as nat);
    }
}

/// Advancing the divider and the timer by `a` and then by `b` clock cycles
/// is advancing them by `a + b` at once: the same memory and the same
/// counters, whatever the counters held.
pub proof fn lemma_timer_split(memory: Seq<u8>, div_cycles: u32, tima_counter: u32, a: u32, b: u32)
    requires
        memory.len() == 65536,
        a + b <= u32::MAX,
    ensures
        ({
            let (m1, d1, t1) = timer_sem(memory, div_cycles, tima_counter, a);
            timer_sem(m1, d1, t1, b) == timer_sem(memory, div_cycles, tima_counter, (a + b) as u32)
        }),
{
    let (m1, d1, t1) = timer_sem(memory, div_cycles, tima_counter, a);
    let (m2, d2, t2) = timer_sem(m1, d1, t1, b);
    let (m3, d3, t3) = timer_sem(memory, div_cycles, tima_counter, (a + b) as u32);
    let x = div_cycles + a;
    lemma_div_split(x, b as int, 256);
    let v0 = memory[0xFF04] as int;
    let i = x / 256;
    let j = (x % 256 + b) / 256;
    assert(m1[0xFF04] == ((v0 + i) % 256) as u8);
    assert(((v0 + i) % 256 + j) % 256 == (v0 + i + j) % 256) by {
        lemma_div_split(v0 + i, j, 256);
    }
    let tac = memory[0xFF07];
    assert(m1[0xFF07] == tac);
    if tac & 0x04 != 0 {
        let p = timer_period(tac) as int;
        assert(p > 0);
        let y = tima_counter + a;
        lemma_div_split(y, b as int, p);
        let mem1 = memory.update(0xFF04, wadd8(memory[0xFF04], x / 256));
        lemma_tima_run_split(mem1[0xFF05], mem1[0xFF06], mem1[0xFF0F], (y / p) as nat, ((y % p + b) / p) as nat);
    }
    assert(m2 =~= m3);
}

} // verus!
