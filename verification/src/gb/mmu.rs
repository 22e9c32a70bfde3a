//! The Game Boy memory map with an MBC1 ROM-bank switch, joypad, timer,
//! serial port, OAM DMA and the scanline counter of the LCD.
use vstd::prelude::*;
use crate::cpu::{Cpu, GbBus, pop2, push2, wadd8};
use crate::mmu::{joypad_byte, timer_sem, timer_step};
use vstd::arithmetic::div_mod::lemma_fundamental_div_mod_converse;

verus! {

pub struct Mmu {
    memory: [u8; 65536],
    rom: Vec<u8>,
    rom_bank: usize,
    buttons: u8,
    dpad: u8,
    pub div_cycles: u32,
    tima_counter: u32,
    line_cycles: u32,
    pub scx_line: [u8; 144],
    pub scy_line: [u8; 144],
    serial: Vec<u8>,
}

/// What the memory map holds, as seen by its contracts.
pub struct MmuView {
    pub memory: Seq<u8>,
    pub rom: Seq<u8>,
    pub rom_bank: usize,
    pub buttons: u8,
    pub dpad: u8,
    pub div_cycles: u32,
    pub tima_counter: u32,
    pub line_cycles: u32,
    pub scx_line: Seq<u8>,
    pub scy_line: Seq<u8>,
    /// Printable bytes sent out through the serial port, oldest first.
    pub serial: Seq<u8>,
}

impl View for Mmu {
    type V = MmuView;

    closed spec fn view(&self) -> MmuView {
        MmuView {
            memory: self.memory@,
            rom: self.rom@,
            rom_bank: self.rom_bank,
            buttons: self.buttons,
            dpad: self.dpad,
            div_cycles: self.div_cycles,
            tima_counter: self.tima_counter,
            line_cycles: self.line_cycles,
            scx_line: self.scx_line@,
            scy_line: self.scy_line@,
            serial: self.serial@,
        }
    }
}

/// The ROM byte at offset `off`, or 0xFF past the end of the ROM.
pub open spec fn rom_byte(rom: Seq<u8>, off: int) -> u8 {
    if off < rom.len() {
        rom[off]
    } else {
        0xFF
    }
}

/// A byte as read by the processor.
pub open spec fn peek_sem(m: MmuView, addr: u16) -> u8 {
    if addr <= 0x3FFF {
        rom_byte(m.rom, addr as int)
    } else if addr <= 0x7FFF {
        rom_byte(m.rom, m.rom_bank as int * 0x4000 + (addr as int - 0x4000))
    } else if addr == 0xFF00 {
        joypad_byte(m.memory[0xFF00], m.buttons, m.dpad)
    } else {
        m.memory[addr as int]
    }
}

/// Number of 16 KiB ROM banks (at least one).
pub open spec fn bank_count(rom_len: nat) -> int {
    if rom_len / 0x4000 >= 1 {
        (rom_len / 0x4000) as int
    } else {
        1
    }
}

/// Memory after an OAM DMA transfer from page `value`, reading through the
/// memory map.
pub open spec fn dma_sem(m: MmuView, value: u8) -> Seq<u8> {
    let src = value as int * 256;
    Seq::new(
        m.memory.len(),
        |i: int|
            if 0xFE00 <= i < 0xFEA0 {
                peek_sem(m, (src + i - 0xFE00) as u16)
            } else if i == 0xFF46 {
                value
            } else {
                m.memory[i]
            },
    )
}

/// Whether the serial port passes byte `c` on (printable ASCII or newline).
pub open spec fn serial_printable(c: u8) -> bool {
    (0x21 <= c && c <= 0x7E) || c == 0x0A
}

/// The map after `write_byte(addr, value)`.
pub open spec fn write_sem(m: MmuView, addr: u16, value: u8) -> MmuView {
    if addr == 0xFF44 {
        m
    } else if addr == 0xFF41 {
        MmuView { memory: m.memory.update(0xFF41, (value & 0x78) | (m.memory[0xFF41] & 0x07)), ..m }
    } else if 0x2000 <= addr <= 0x3FFF {
        let bank = if value & 0x1F == 0 {
            1
        } else {
            (value & 0x1F) as int
        };
        MmuView { rom_bank: (bank % bank_count(m.rom.len())) as usize, ..m }
    } else if addr < 0x8000 {
        m
    } else if addr == 0xFF04 {
        MmuView { memory: m.memory.update(0xFF04, 0), div_cycles: 0, ..m }
    } else if addr == 0xFF00 {
        MmuView { memory: m.memory.update(0xFF00, value & 0x30), ..m }
    } else if addr == 0xFF46 {
        MmuView { memory: dma_sem(m, value), ..m }
    } else if addr == 0xFF02 && value & 0x80 != 0 && serial_printable(m.memory[0xFF01]) {
        MmuView {
            memory: m.memory.update(0xFF02, value),
            serial: m.serial.push(m.memory[0xFF01]),
            ..m
        }
    } else {
        MmuView { memory: m.memory.update(addr as int, value), ..m }
    }
}

/// Line-buffer state of the scanline counter: memory, per-line SCX and SCY.
pub open spec fn line_end(mem: Seq<u8>, scx: Seq<u8>, scy: Seq<u8>) -> (Seq<u8>, Seq<u8>, Seq<u8>) {
    let ly = mem[0xFF44];
    let scx1 = if ly < 144 {
        scx.update(ly as int, mem[0xFF43])
    } else {
        scx
    };
    let scy1 = if ly < 144 {
        scy.update(ly as int, mem[0xFF42])
    } else {
        scy
    };
    let next = wadd8(ly, 1);
    let ly1: u8 = if next >= 154 {
        0
    } else {
        next
    };
    let mem1 = mem.update(0xFF44, ly1);
    let mem2 = if ly1 == 144 {
        mem1.update(0xFF0F, mem1[0xFF0F] | 0x01)
    } else {
        mem1
    };
    (mem2, scx1, scy1)
}

/// `k` completed scanlines.
pub open spec fn lines_run(mem: Seq<u8>, scx: Seq<u8>, scy: Seq<u8>, k: nat) -> (
    Seq<u8>,
    Seq<u8>,
    Seq<u8>,
)
    decreases k,
{
    if k == 0 {
        (mem, scx, scy)
    } else {
        let (m1, x1, y1) = lines_run(mem, scx, scy, (k - 1) as nat);
        line_end(m1, x1, y1)
    }
}

/// The LCD mode for line `ly` at `line_cycles` into the line: 1 VBlank,
/// 2 OAM search, 3 transfer, 0 HBlank.
pub open spec fn lcd_mode(ly: u8, line_cycles: u32) -> u8 {
    if ly >= 144 {
        1
    } else if line_cycles < 80 {
        2
    } else if line_cycles < 80 + 172 {
        3
    } else {
        0
    }
}

/// STAT and IF after the mode and coincidence update.
pub open spec fn stat_update(mem: Seq<u8>, line_cycles: u32) -> Seq<u8> {
    let ly = mem[0xFF44];
    let lyc = mem[0xFF45];
    let mode = lcd_mode(ly, line_cycles);
    let old_mode = mem[0xFF41] & 0x03;
    let stat0 = (mem[0xFF41] & 0xF8) | mode;
    let stat = if ly == lyc {
        stat0 | 0x04
    } else {
        stat0
    };
    let irq = (ly == lyc && stat & 0x40 != 0) || (mode != old_mode && ((mode == 0 && stat & 0x08
        != 0) || (mode == 1 && stat & 0x10 != 0) || (mode == 2 && stat & 0x20 != 0)));
    let mem1 = mem.update(0xFF41, stat);
    if irq {
        mem1.update(0xFF0F, mem1[0xFF0F] | 0x02)
    } else {
        mem1
    }
}

/// The map after `set_joypad(buttons, dpad)`.
pub open spec fn joypad_view(o: MmuView, buttons: u8, dpad: u8) -> MmuView {
    let b = buttons & 0x0F;
    let d = dpad & 0x0F;
    let pressed = (o.buttons & !b) | (o.dpad & !d);
    MmuView {
        buttons: b,
        dpad: d,
        memory: if (b, d) != (o.buttons, o.dpad) && pressed & 0x0F != 0 {
            o.memory.update(0xFF0F, o.memory[0xFF0F] | 0x10)
        } else {
            o.memory
        },
        ..o
    }
}

/// Every joypad update keeps the cycle counters.
pub proof fn lemma_joypad_keeps_counters(m: MmuView, buttons: u8, dpad: u8)
    requires
        counters_small(m),
    ensures
        counters_small(joypad_view(m, buttons, dpad)),
{
}

/// The map after `tick(cycles)`.
pub open spec fn tick_view(m: MmuView, cycles: u32) -> MmuView {
    let (mem, d, t) = timer_sem(m.memory, m.div_cycles, m.tima_counter, cycles);
    MmuView { memory: mem, div_cycles: d, tima_counter: t, ..m }
}

/// The map after `ppu_step(cycles)`.
pub open spec fn ppu_view(m: MmuView, cycles: u32) -> MmuView {
    if m.memory[0xFF40] & 0x80 == 0 {
        m
    } else {
        let total = m.line_cycles + cycles;
        let (mem, scx, scy) = lines_run(m.memory, m.scx_line, m.scy_line, (total / 456) as nat);
        let lc = (total % 456) as u32;
        MmuView { memory: stat_update(mem, lc), scx_line: scx, scy_line: scy, line_cycles: lc, ..m }
    }
}

/// The cycle counters are within one period: what `tick` and `ppu_step`
/// leave behind.
pub open spec fn counters_small(m: MmuView) -> bool {
    m.div_cycles < 256 && m.tima_counter < 1024 && m.line_cycles < 456
}

/// Every write keeps the cycle counters within one period.
pub proof fn lemma_write_keeps_counters(m: MmuView, addr: u16, value: u8)
    requires
        counters_small(m),
    ensures
        counters_small(write_sem(m, addr, value)),
{
}

/// A tick and a scanline step leave the cycle counters within one period.
pub proof fn lemma_tick_ppu_counters(m: MmuView, cycles: u32)
    requires
        counters_small(m),
        cycles <= 24,
    ensures
        counters_small(ppu_view(tick_view(m, cycles), cycles)),
{
    let total = m.div_cycles + cycles;
    let tac = m.memory.update(0xFF04, wadd8(m.memory[0xFF04], total / 256))[0xFF07];
    let p = crate::mmu::timer_period(tac);
    assert(p > 0 && p <= 1024);
}

impl Mmu {
    pub fn new() -> (r: Self)
        ensures
            r@.memory == Seq::new(65536, |i: int| 0u8),
            r@.rom == Seq::<u8>::empty(),
            r@.rom_bank == 1,
            r@.buttons == 0x0F,
            r@.dpad == 0x0F,
            r@.div_cycles == 0,
            r@.tima_counter == 0,
            r@.line_cycles == 0,
            r@.scx_line == Seq::new(144, |i: int| 0u8),
            r@.scy_line == Seq::new(144, |i: int| 0u8),
            r@.serial == Seq::<u8>::empty(),
    {
        let r = Self {
            memory: [0; 65536],
            rom: Vec::new(),
            rom_bank: 1,
            buttons: 0x0F,
            dpad: 0x0F,
            div_cycles: 0,
            tima_counter: 0,
            line_cycles: 0,
            scx_line: [0; 144],
            scy_line: [0; 144],
            serial: Vec::new(),
        };
        assert(r@.memory =~= Seq::new(65536, |i: int| 0u8));
        assert(r@.scx_line =~= Seq::new(144, |i: int| 0u8));
        assert(r@.scy_line =~= Seq::new(144, |i: int| 0u8));
        r
    }

    /// Records the joypad state (pressed = 0, low nibble of each argument);
    /// a button going from released to pressed requests the joypad
    /// interrupt.
    pub fn set_joypad(&mut self, buttons: u8, dpad: u8)
        ensures
            final(self)@ == joypad_view(old(self)@, buttons, dpad),
    {
        let buttons = buttons & 0x0F;
        let dpad = dpad & 0x0F;
        let old_b = self.buttons;
        let old_d = self.dpad;
        self.buttons = buttons;
        self.dpad = dpad;
        if buttons == old_b && dpad == old_d {
            return;
        }
        let pressed_now = (old_b & !buttons) | (old_d & !dpad);
        if pressed_now & 0x0F != 0 {
            self.memory[0xFF0F] = self.memory[0xFF0F] | 0x10;
        }
    }

    pub fn read_byte(&self, addr: u16) -> (r: u8)
        ensures
            r == peek_sem(self@, addr),
    {
        if addr <= 0x3FFF {
            if (addr as usize) < self.rom.len() {
                self.rom[addr as usize]
            } else {
                0xFF
            }
        } else if addr <= 0x7FFF {
            let off: u128 = (self.rom_bank as u128) * 0x4000 + (addr as u128 - 0x4000);
            if off < self.rom.len() as u128 {
                self.rom[off as usize]
            } else {
                0xFF
            }
        } else if addr == 0xFF00 {
            let select = self.memory[0xFF00];
            let mut lo: u8 = 0x0F;
            if select & 0x20 == 0 {
                lo &= self.buttons;
            }
            if select & 0x10 == 0 {
                lo &= self.dpad;
            }
            0xC0 | (select & 0x30) | lo
        } else {
            self.memory[addr as usize]
        }
    }

    /// Sizes of the memory and of the per-line scroll records.
    pub proof fn lemma_view_lens(&self)
        ensures
            self@.memory.len() == 65536,
            self@.scx_line.len() == 144,
            self@.scy_line.len() == 144,
    {
    }

    /// SCX latched for visible line `y`.
    pub fn scx_at(&self, y: usize) -> (r: u8)
        requires
            y < 144,
        ensures
            r == self@.scx_line[y as int],
    {
        self.scx_line[y]
    }

    /// SCY latched for visible line `y`.
    pub fn scy_at(&self, y: usize) -> (r: u8)
        requires
            y < 144,
        ensures
            r == self@.scy_line[y as int],
    {
        self.scy_line[y]
    }

    /// Sets the scanline counter LY.
    pub fn write_ly(&mut self, v: u8)
        ensures
            final(self)@ == (MmuView { memory: old(self)@.memory.update(0xFF44, v), ..old(self)@ }),
    {
        self.memory[0xFF44] = v;
    }

    /// Requests the interrupts in `bits`.
    pub fn or_if(&mut self, bits: u8)
        ensures
            final(self)@ == (MmuView {
                memory: old(self)@.memory.update(0xFF0F, old(self)@.memory[0xFF0F] | bits),
                ..old(self)@
            }),
    {
        self.memory[0xFF0F] = self.memory[0xFF0F] | bits;
    }

    /// Advances the LCD by `cycles` clock cycles: completed 456-cycle lines
    /// latch SCX/SCY for visible lines and advance LY (0..=153, VBlank
    /// interrupt on entering line 144), then STAT mode and coincidence are
    /// updated and the STAT interrupt requested as enabled. Nothing happens
    /// while the LCD is off.
    pub fn ppu_step(&mut self, cycles: u32)
        requires
            old(self)@.line_cycles + cycles <= u32::MAX,
        ensures
            final(self)@ == ppu_view(old(self)@, cycles),
    {
        if self.memory[0xFF40] & 0x80 == 0 {
            return;
        }
        let ghost o = self@;
        let ghost total = self.line_cycles + cycles;
        self.line_cycles = self.line_cycles + cycles;
        let ghost mut k: nat = 0;
        while self.line_cycles >= 456
            invariant
                self.line_cycles + 456 * k == total,
                o.memory.len() == 65536,
                o.scx_line.len() == 144,
                o.scy_line.len() == 144,
                (self.memory@, self.scx_line@, self.scy_line@) == lines_run(
                    o.memory,
                    o.scx_line,
                    o.scy_line,
                    k,
                ),
                self@ == (MmuView {
                    memory: self.memory@,
                    scx_line: self.scx_line@,
                    scy_line: self.scy_line@,
                    line_cycles: self.line_cycles,
                    ..o
                }),
            decreases self.line_cycles,
        {
            proof {
                lemma_lines_run_len(o.memory, o.scx_line, o.scy_line, k);
            }
            self.line_cycles = self.line_cycles - 456;
            let ly = self.memory[0xFF44];
            if ly < 144 {
                self.scx_line[ly as usize] = self.memory[0xFF43];
                self.scy_line[ly as usize] = self.memory[0xFF42];
            }
            let mut ly = ly.wrapping_add(1);
            if ly >= 154 {
                ly = 0;
            }
            self.memory[0xFF44] = ly;
            if ly == 144 {
                self.memory[0xFF0F] = self.memory[0xFF0F] | 0x01;
            }
            proof {
                k = k + 1;
            }
            assert((self.memory@, self.scx_line@, self.scy_line@) == lines_run(
                o.memory,
                o.scx_line,
                o.scy_line,
                k,
            ));
        }
        proof {
            lemma_fundamental_div_mod_converse(total, 456, k as int, self.line_cycles as int);
            lemma_lines_run_len(o.memory, o.scx_line, o.scy_line, k);
        }
        let ly = self.memory[0xFF44];
        let lyc = self.memory[0xFF45];
        let mut stat = self.memory[0xFF41] & 0xF8;
        let mode: u8 = if ly >= 144 {
            1
        } else if self.line_cycles < 80 {
            2
        } else if self.line_cycles < 80 + 172 {
            3
        } else {
            0
        };
        let old_mode = self.memory[0xFF41] & 0x03;
        stat = stat | mode;
        if ly == lyc {
            stat = stat | 0x04;
        }
        self.memory[0xFF41] = stat;
        let irq = (ly == lyc && stat & 0x40 != 0) || (mode != old_mode && ((mode == 0 && stat & 0x08
            != 0) || (mode == 1 && stat & 0x10 != 0) || (mode == 2 && stat & 0x20 != 0)));
        if irq {
            self.memory[0xFF0F] = self.memory[0xFF0F] | 0x02;
        }
        assert(self@.memory =~= stat_update(lines_run(o.memory, o.scx_line, o.scy_line, k).0, self.line_cycles));
    }

    pub fn write_byte(&mut self, addr: u16, value: u8)
        ensures
            final(self)@ == write_sem(old(self)@, addr, value),
    {
        if addr == 0xFF44 {
            return;
        }
        if addr == 0xFF41 {
            let old = self.memory[0xFF41];
            self.memory[0xFF41] = (value & 0x78) | (old & 0x07);
            return;
        }
        if 0x2000 <= addr && addr <= 0x3FFF {
            let banks = if self.rom.len() / 0x4000 >= 1 {
                self.rom.len() / 0x4000
            } else {
                1
            };
            let mut bank = (value & 0x1F) as usize;
            if bank == 0 {
                bank = 1;
            }
            self.rom_bank = bank % banks;
            return;
        }
        if addr < 0x8000 {
            return;
        }
        if addr == 0xFF04 {
            self.memory[0xFF04] = 0;
            self.div_cycles = 0;
            return;
        }
        if addr == 0xFF00 {
            self.memory[0xFF00] = value & 0x30;
            return;
        }
        if addr == 0xFF02 && value & 0x80 != 0 {
            let c = self.memory[0xFF01];
            if (0x21 <= c && c <= 0x7E) || c == 0x0A {
                self.serial.push(c);
            }
        }
        if addr == 0xFF46 {
            let src: u16 = (value as u16) * 256;
            let ghost o = self@;
            let mut i: u16 = 0;
            while i < 160
                invariant
                    0 <= i <= 160,
                    src == value as int * 256,
                    o.memory.len() == 65536,
                    o == old(self)@,
                    self@ == (MmuView { memory: self.memory@, ..o }),
                    self.memory@.len() == 65536,
                    forall|j: int|
                        0 <= j < 65536 ==> #[trigger] self.memory@[j] == (if 0xFE00 <= j < 0xFE00 + i {
                            peek_sem(o, (src + j - 0xFE00) as u16)
                        } else {
                            o.memory[j]
                        }),
                decreases 160 - i,
            {
                let b = self.read_byte(src + i);
                self.memory[0xFE00 + i as usize] = b;
                i = i + 1;
            }
            self.memory[0xFF46] = value;
            assert(self@.memory =~= dma_sem(o, value));
            return;
        }
        self.memory[addr as usize] = value;
    }

    /// Advances the divider and the timer by `cycles` clock cycles.
    pub fn tick(&mut self, cycles: u32)
        requires
            old(self)@.div_cycles + cycles <= u32::MAX,
            old(self)@.tima_counter + cycles <= u32::MAX,
        ensures
            final(self)@ == tick_view(old(self)@, cycles),
    {
        let (mem, d, t) = timer_step(self.memory, self.div_cycles, self.tima_counter, cycles);
        self.memory = mem;
        self.div_cycles = d;
        self.tima_counter = t;
    }

    /// The I/O registers as the boot ROM leaves them.
    pub fn init_after_boot(&mut self)
        ensures
            final(self)@ == (MmuView {
                memory: old(self)@.memory.update(0xFF40, 0x91).update(0xFF41, 0x85).update(
                    0xFF42,
                    0x00,
                ).update(0xFF43, 0x00).update(0xFF45, 0x00).update(0xFF47, 0xFC).update(
                    0xFF48,
                    0xFF,
                ).update(0xFF49, 0xFF).update(0xFF4A, 0x00).update(0xFF4B, 0x00).update(
                    0xFF0F,
                    0xE1,
                ),
                ..old(self)@
            }),
    {
        self.memory[0xFF40] = 0x91;
        self.memory[0xFF41] = 0x85;
        self.memory[0xFF42] = 0x00;
        self.memory[0xFF43] = 0x00;
        self.memory[0xFF45] = 0x00;
        self.memory[0xFF47] = 0xFC;
        self.memory[0xFF48] = 0xFF;
        self.memory[0xFF49] = 0xFF;
        self.memory[0xFF4A] = 0x00;
        self.memory[0xFF4B] = 0x00;
        self.memory[0xFF0F] = 0xE1;
    }

    /// Installs a ROM image: bank 1 is mapped at 0x4000 and the first 32 KiB
    /// are also copied into memory.
    pub fn load_rom(&mut self, bytes: Vec<u8>)
        ensures
            final(self)@ == (MmuView {
                rom: bytes@,
                rom_bank: 1,
                memory: Seq::new(
                    65536,
                    |i: int|
                        if i < bytes@.len() && i < 0x8000 {
                            bytes@[i]
                        } else {
                            old(self)@.memory[i]
                        },
                ),
                ..old(self)@
            }),
    {
        let n = if bytes.len() < 0x8000 {
            bytes.len()
        } else {
            0x8000
        };
        let mut i: usize = 0;
        while i < n
            invariant
                0 <= i <= n,
                n <= 0x8000,
                n <= bytes@.len(),
                n == bytes@.len() || n == 0x8000,
                self.memory@.len() == 65536,
                self@ == (MmuView { memory: self.memory@, ..old(self)@ }),
                forall|j: int|
                    0 <= j < 65536 ==> #[trigger] self.memory@[j] == (if j < i {
                        bytes@[j]
                    } else {
                        old(self)@.memory[j]
                    }),
            decreases n - i,
        {
            self.memory[i] = bytes[i];
            i = i + 1;
        }
        self.rom = bytes;
        self.rom_bank = 1;
        assert(self@.memory =~= Seq::new(
            65536,
            |i: int|
                if i < self.rom@.len() && i < 0x8000 {
                    self.rom@[i]
                } else {
                    old(self)@.memory[i]
                },
        ));
    }

    /// Printable bytes sent through the serial port since the last call,
    /// oldest first; the record is emptied.
    pub fn take_serial(&mut self) -> (r: Vec<u8>)
        ensures
            r@ == old(self)@.serial,
            final(self)@ == (MmuView { serial: Seq::empty(), ..old(self)@ }),
    {
        let mut out = Vec::new();
        std::mem::swap(&mut out, &mut self.serial);
        out
    }
}

proof fn lemma_lines_run_len(mem: Seq<u8>, scx: Seq<u8>, scy: Seq<u8>, k: nat)
    requires
        mem.len() == 65536,
        scx.len() == 144,
        scy.len() == 144,
    ensures
        lines_run(mem, scx, scy, k).0.len() == 65536,
        lines_run(mem, scx, scy, k).1.len() == 144,
        lines_run(mem, scx, scy, k).2.len() == 144,
    decreases k,
{
    if k > 0 {
        lemma_lines_run_len(mem, scx, scy, (k - 1) as nat);
    }
}

impl GbBus for Mmu {
    open spec fn peek(m: MmuView, addr: u16) -> u8 {
        peek_sem(m, addr)
    }

    open spec fn poke(m: MmuView, addr: u16, value: u8) -> MmuView {
        write_sem(m, addr, value)
    }

    fn read_byte(&self, addr: u16) -> (r: u8) {
        Mmu::read_byte(self, addr)
    }

    fn write_byte(&mut self, addr: u16, value: u8) {
        Mmu::write_byte(self, addr, value)
    }
}


// ---------------------------------------------------------------------------
// Laws
// ---------------------------------------------------------------------------
/// A byte written to video RAM, external/work RAM, OAM or high RAM reads
/// back.
pub proof fn lemma_ram_roundtrip(m: MmuView, addr: u16, v: u8)
    requires
        m.memory.len() == 65536,
        (0x8000 <= addr < 0xFF00) || (0xFF80 <= addr <= 0xFFFE),
    ensures
        peek_sem(write_sem(m, addr, v), addr) == v,
{
}

/// Writes to 0x0000..=0x1FFF and 0x4000..=0x7FFF change nothing.
pub proof fn lemma_rom_read_only(m: MmuView, addr: u16, v: u8)
    requires
        addr < 0x2000 || (0x4000 <= addr < 0x8000),
    ensures
        write_sem(m, addr, v) == m,
{
}

/// A write to 0x2000..=0x3FFF selects the ROM bank seen at
/// 0x4000..=0x7FFF: its low five bits, 0 counting as 1, modulo the number
/// of banks; bank 0 at 0x0000..=0x3FFF stays.
pub proof fn lemma_bank_select(m: MmuView, sel: u16, value: u8, addr: u16)
    requires
        0x2000 <= sel <= 0x3FFF,
    ensures
        0x4000 <= addr <= 0x7FFF ==> peek_sem(write_sem(m, sel, value), addr) == rom_byte(
            m.rom,
            ((if value & 0x1F == 0 {
                1
            } else {
                (value & 0x1F) as int
            }) % bank_count(m.rom.len())) * 0x4000 + (addr - 0x4000),
        ),
        addr <= 0x3FFF ==> peek_sem(write_sem(m, sel, value), addr) == peek_sem(m, addr),
{
    let bank: int = if value & 0x1F == 0 {
        1
    } else {
        (value & 0x1F) as int
    };
    let n = bank_count(m.rom.len());
    assert(n >= 1);
    assert(0 <= bank % n < n);
    assert(bank <= 0xFF);
    assert(bank % n <= bank) by (nonlinear_arith)
        requires
            n >= 1,
            bank >= 0,
    ;
    assert(write_sem(m, sel, value).rom_bank as int == bank % n);
}


/// Two bytes pushed on a stack that lies in RAM pop back in the same order,
/// with SP restored.
pub proof fn lemma_push_pop(cpu: Cpu, m: MmuView, hi: u8, lo: u8)
    requires
        m.memory.len() == 65536,
        (0x8002 <= cpu.sp <= 0xFF00) || (0xFF82 <= cpu.sp),
    ensures
        ({
            let (c1, m1) = push2::<Mmu>(cpu, m, hi, lo);
            let (c2, h, l) = pop2::<Mmu>(c1, m1);
            h == hi && l == lo && c2 == cpu
        }),
{
}

/// Whole scanlines keep LY within 0..=153, leave STAT and LYC alone, and
/// add to IF at most the VBlank bit.
proof fn lemma_lines_run_registers(mem: Seq<u8>, scx: Seq<u8>, scy: Seq<u8>, k: nat)
    requires
        mem.len() == 65536,
        scx.len() == 144,
        scy.len() == 144,
        mem[0xFF44] <= 153,
    ensures
        ({
            let r = lines_run(mem, scx, scy, k).0;
            &&& r.len() == 65536
            &&& r[0xFF44] <= 153
            &&& r[0xFF41] == mem[0xFF41]
            &&& r[0xFF45] == mem[0xFF45]
            &&& r[0xFF0F] == mem[0xFF0F] | (r[0xFF0F] & 0x01)
        }),
    decreases k,
{
    let i0 = mem[0xFF0F];
    if k == 0 {
        assert(i0 == i0 | (i0 & 0x01)) by (bit_vector);
    } else {
        lemma_lines_run_registers(mem, scx, scy, (k - 1) as nat);
        lemma_lines_run_len(mem, scx, scy, (k - 1) as nat);
        let (m1, x1, y1) = lines_run(mem, scx, scy, (k - 1) as nat);
        let i1 = m1[0xFF0F];
        let r = line_end(m1, x1, y1).0;
        let i2 = r[0xFF0F];
        assert(i2 == i1 || i2 == i1 | 0x01);
        assert(i2 == i0 | (i2 & 0x01)) by (bit_vector)
            requires
                i1 == i0 | (i1 & 0x01),
                i2 == i1 || i2 == i1 | 0x01,
        ;
    }
}

/// After a scanline step with the LCD on and LY within 0..=153: LY stays
/// within 0..=153, the coincidence bit of STAT says whether LY equals LYC,
/// the mode bits say VBlank exactly when LY is 144 or more, the upper STAT
/// bits are kept, and IF keeps its bits and gains at most bits 0 and 1.
/// With the LCD off nothing changes.
pub proof fn lemma_ppu_step_registers(m: MmuView, cycles: u32)
    requires
        m.memory.len() == 65536,
        m.scx_line.len() == 144,
        m.scy_line.len() == 144,
        m.memory[0xFF44] <= 153,
    ensures
        m.memory[0xFF40] & 0x80 == 0 ==> ppu_view(m, cycles) == m,
        m.memory[0xFF40] & 0x80 != 0 ==> ({
            let r = ppu_view(m, cycles).memory;
            let ly = r[0xFF44];
            let stat = r[0xFF41];
            let if0 = m.memory[0xFF0F];
            let if1 = r[0xFF0F];
            &&& ly <= 153
            &&& (stat & 0x04 != 0) == (ly == r[0xFF45])
            &&& (stat & 0x03 == 1) == (ly >= 144)
            &&& stat & 0xF8 == m.memory[0xFF41] & 0xF8
            &&& r[0xFF45] == m.memory[0xFF45]
            &&& if1 & if0 == if0
            &&& (if1 & !if0) & 0xFC == 0
        }),
{
    if m.memory[0xFF40] & 0x80 != 0 {
        let total = m.line_cycles + cycles;
        let k = (total / 456) as nat;
        lemma_lines_run_registers(m.memory, m.scx_line, m.scy_line, k);
        let (mem, scx, scy) = lines_run(m.memory, m.scx_line, m.scy_line, k);
        let lc = (total % 456) as u32;
        let r = stat_update(mem, lc);
        let ly = mem[0xFF44];
        let lyc = mem[0xFF45];
        let md = lcd_mode(ly, lc);
        let s0 = mem[0xFF41];
        let eq = ly == lyc;
        let st = r[0xFF41];
        assert(md <= 3);
        assert(st == (if eq { (s0 & 0xF8) | md | 0x04 } else { (s0 & 0xF8) | md }));
        assert((st & 0x04 != 0) == eq && st & 0x03 == md && st & 0xF8 == s0 & 0xF8) by (bit_vector)
            requires
                md <= 3,
                st == (if eq { (s0 & 0xF8) | md | 0x04 } else { (s0 & 0xF8) | md }),
        ;
        let i0 = m.memory[0xFF0F];
        let i1 = mem[0xFF0F];
        let i2 = r[0xFF0F];
        assert(i2 == i1 || i2 == i1 | 0x02);
        assert(i2 & i0 == i0 && (i2 & !i0) & 0xFC == 0) by (bit_vector)
            requires
                i1 == i0 | (i1 & 0x01),
                i2 == i1 || i2 == i1 | 0x02,
        ;
    }
}

/// A tick of `a` clock cycles and then one of `b` leave the map as one tick
/// of `a + b`.
pub proof fn lemma_tick_split(m: MmuView, a: u32, b: u32)
    requires
        m.memory.len() == 65536,
        a + b <= u32::MAX,
    ensures
        tick_view(tick_view(m, a), b) == tick_view(m, (a + b) as u32),
{
    crate::mmu::lemma_timer_split(m.memory, m.div_cycles, m.tima_counter, a, b);
}

} // verus!
