//! The NES: cartridge, 6502 processor, picture unit and the machine that
//! connects them, with save states and rewind.
pub mod cart;
pub mod cpu;
pub mod ppu;

use vstd::prelude::*;
use vstd::arithmetic::div_mod::{lemma_fundamental_div_mod, lemma_fundamental_div_mod_converse};
use crate::cpu::{hi_byte, lo_byte, wadd8, word};
use cart::{
    Cart, CartState, CartStateView, CartView, cart_state_of, cart_state_wf, cart_wf,
    prg_write_spec, prg_read_spec, with_cart_state, wram_read_spec, wram_write_spec,
};
use cpu::{Bus, Cpu, FLAG_B, FLAG_I, FLAG_U, lemma_step_cycles, pop_spec, push_spec, step_sem};
use crate::gui::{Pad, Ui};
use std::collections::VecDeque;
use ppu::{
    Ppu, PpuView, begin_line_spec, draw_sprites_spec, end_line_spec, line_cids, line_colors,
    lemma_sprites_keep_len, ppu_power_up, sprites_fit, ppu_wf, pre_render_spec, read_reg_spec, splice,
    write_reg_spec,
};

verus! {

pub const WIDTH: usize = 256;

pub const HEIGHT: usize = 240;

/// A snapshot of the whole machine but the cartridge's fixed contents.
#[derive(Clone)]
pub struct NesState {
    pub cpu_pc: u16,
    pub cpu_a: u8,
    pub cpu_x: u8,
    pub cpu_y: u8,
    pub cpu_s: u8,
    pub cpu_status: u8,
    pub ram: [u8; 0x0800],
    pub buttons: u8,
    pub strobe: bool,
    pub shift: u8,
    pub dma_stall: u32,
    pub ppu_state: Ppu,
    pub cart_state: CartState,
}

/// A snapshot, as seen by contracts.
pub struct NesStateView {
    pub cpu: Cpu,
    pub ram: Seq<u8>,
    pub buttons: u8,
    pub strobe: bool,
    pub shift: u8,
    pub dma_stall: u32,
    pub ppu: PpuView,
    pub cart: CartStateView,
}

impl View for NesState {
    type V = NesStateView;

    open spec fn view(&self) -> NesStateView {
        NesStateView {
            cpu: Cpu {
                a: self.cpu_a,
                x: self.cpu_x,
                y: self.cpu_y,
                p: self.cpu_status,
                sp: self.cpu_s,
                pc: self.cpu_pc,
            },
            ram: self.ram@,
            buttons: self.buttons,
            strobe: self.strobe,
            shift: self.shift,
            dma_stall: self.dma_stall,
            ppu: self.ppu_state@,
            cart: self.cart_state@,
        }
    }
}

/// A snapshot that a running machine can be restored to.
pub open spec fn state_wf(s: NesStateView) -> bool {
    s.ram.len() == 0x800 && ppu_wf(s.ppu) && cart_state_wf(s.cart)
}

/// The memory map of the processor: 2 KiB of RAM mirrored to 0x2000, the
/// picture unit's registers mirrored to 0x4000, OAM DMA at 0x4014, the first
/// controller at 0x4016, cartridge work RAM at 0x6000 and PRG at 0x8000.
pub struct NesBus {
    ram: [u8; 0x0800],
    cart: Cart,
    ppu: Ppu,
    buttons: u8,
    strobe: bool,
    shift: u8,
    dma_stall: u32,
}

/// The bus, as seen by contracts.
pub struct NesBusView {
    pub ram: Seq<u8>,
    pub cart: CartView,
    pub ppu: PpuView,
    pub buttons: u8,
    pub strobe: bool,
    pub shift: u8,
    pub dma_stall: u32,
}

impl View for NesBus {
    type V = NesBusView;

    closed spec fn view(&self) -> NesBusView {
        NesBusView {
            ram: self.ram@,
            cart: self.cart@,
            ppu: self.ppu@,
            buttons: self.buttons,
            strobe: self.strobe,
            shift: self.shift,
            dma_stall: self.dma_stall,
        }
    }
}

/// Sizes of the memories and well-formed cartridge and picture unit.
pub open spec fn bus_wf(m: NesBusView) -> bool {
    m.ram.len() == 0x800 && cart_wf(m.cart) && ppu_wf(m.ppu)
}

/// A read of `addr`: the bus afterwards (picture-unit registers and the
/// controller shift register change when read) and the byte.
pub open spec fn bus_read(m: NesBusView, addr: u16) -> (NesBusView, u8) {
    if addr <= 0x1FFF {
        (m, m.ram[addr as int % 0x800])
    } else if addr <= 0x3FFF {
        let (p, v) = read_reg_spec(m.ppu, m.cart, addr);
        (NesBusView { ppu: p, ..m }, v)
    } else if 0x6000 <= addr <= 0x7FFF {
        (m, wram_read_spec(m.cart, addr))
    } else if addr == 0x4016 {
        if m.strobe {
            (m, (m.buttons & 1) | 0x40)
        } else {
            (NesBusView { shift: m.shift >> 1u8, ..m }, (m.shift & 1) | 0x40)
        }
    } else if addr >= 0x8000 {
        (m, prg_read_spec(m.cart, addr))
    } else {
        (m, 0)
    }
}

/// The first `k` bytes of an OAM DMA from page `src`: each byte is read
/// through the bus, then stored in sprite memory.
pub open spec fn dma_spec(m: NesBusView, src: u16, k: nat) -> NesBusView
    decreases k,
{
    if k == 0 {
        m
    } else {
        let m1 = dma_spec(m, src, (k - 1) as nat);
        let (m2, b) = bus_read(m1, (src + k - 1) as u16);
        NesBusView { ppu: PpuView { oam: m2.ppu.oam.update(k - 1, b), ..m2.ppu }, ..m2 }
    }
}

/// A write of `value` to `addr`. A write to 0x4014 copies page `value` to
/// sprite memory, resets the OAM address and stalls the processor for 513
/// cycles; a write to 0x4016 sets the strobe, which reloads the shift
/// register from the buttons.
pub open spec fn bus_write(m: NesBusView, addr: u16, value: u8) -> NesBusView {
    if addr <= 0x1FFF {
        NesBusView { ram: m.ram.update(addr as int % 0x800, value), ..m }
    } else if addr <= 0x3FFF {
        let (p, c) = write_reg_spec(m.ppu, m.cart, addr, value);
        NesBusView { ppu: p, cart: c, ..m }
    } else if addr == 0x4014 {
        let m1 = dma_spec(m, (value as int * 256) as u16, 256);
        NesBusView {
            ppu: PpuView { oam_addr: 0, ..m1.ppu },
            dma_stall: ((m1.dma_stall as int + 513) % 0x1_0000_0000) as u32,
            ..m1
        }
    } else if addr == 0x4016 {
        let strobe = value & 1 != 0;
        NesBusView {
            strobe,
            shift: if strobe {
                m.buttons
            } else {
                m.shift
            },
            ..m
        }
    } else if 0x6000 <= addr <= 0x7FFF {
        NesBusView { cart: wram_write_spec(m.cart, addr, value), ..m }
    } else if addr >= 0x8000 {
        NesBusView { cart: prg_write_spec(m.cart, addr, value), ..m }
    } else {
        m
    }
}

/// The snapshot of bus `m` and processor `c`.
pub open spec fn capture_view(m: NesBusView, c: Cpu) -> NesStateView {
    NesStateView {
        cpu: c,
        ram: m.ram,
        buttons: m.buttons,
        strobe: m.strobe,
        shift: m.shift,
        dma_stall: m.dma_stall,
        ppu: m.ppu,
        cart: cart_state_of(m.cart),
    }
}

/// Bus `m` restored to snapshot `s` (the cartridge keeps its contents).
pub open spec fn load_view(m: NesBusView, s: NesStateView) -> NesBusView {
    NesBusView {
        ram: s.ram,
        cart: with_cart_state(m.cart, s.cart),
        ppu: s.ppu,
        buttons: s.buttons,
        strobe: s.strobe,
        shift: s.shift,
        dma_stall: s.dma_stall,
    }
}

impl NesBus {
    /// A bus with cleared RAM, a powered-up picture unit and `cart`.
    pub fn new(cart: Cart) -> (r: Self)
        requires
            cart.wf(),
        ensures
            bus_wf(r@),
            r@ == (NesBusView {
                ram: Seq::new(0x800, |i: int| 0u8),
                cart: cart@,
                ppu: ppu_power_up(),
                buttons: 0,
                strobe: false,
                shift: 0,
                dma_stall: 0,
            }),
    {
        let r = NesBus {
            ram: [0; 0x0800],
            cart,
            ppu: Ppu::new(),
            buttons: 0,
            strobe: false,
            shift: 0,
            dma_stall: 0,
        };
        assert(r@.ram =~= Seq::new(0x800, |i: int| 0u8));
        r
    }

    /// A snapshot of the machine for save states and rewind.
    pub fn capture_state(&self, cpu: &Cpu) -> (r: NesState)
        ensures
            r@ == capture_view(self@, *cpu),
    {
        NesState {
            cpu_pc: cpu.pc,
            cpu_a: cpu.a,
            cpu_x: cpu.x,
            cpu_y: cpu.y,
            cpu_s: cpu.sp,
            cpu_status: cpu.p,
            ram: self.ram,
            buttons: self.buttons,
            strobe: self.strobe,
            shift: self.shift,
            dma_stall: self.dma_stall,
            ppu_state: self.ppu,
            cart_state: self.cart.capture_state(),
        }
    }

    /// Restores the machine to `state`.
    pub fn load_state(&mut self, cpu: &mut Cpu, state: &NesState)
        requires
            bus_wf(old(self)@),
            state_wf(state@),
        ensures
            bus_wf(final(self)@),
            final(self)@ == load_view(old(self)@, state@),
            *final(cpu) == state@.cpu,
    {
        cpu.pc = state.cpu_pc;
        cpu.a = state.cpu_a;
        cpu.x = state.cpu_x;
        cpu.y = state.cpu_y;
        cpu.sp = state.cpu_s;
        cpu.p = state.cpu_status;
        self.ram = state.ram;
        self.buttons = state.buttons;
        self.strobe = state.strobe;
        self.shift = state.shift;
        self.dma_stall = state.dma_stall;
        self.ppu = state.ppu_state;
        self.cart.load_state(&state.cart_state);
    }

    /// Copies page `value` to sprite memory through the bus.
    fn oam_dma(&mut self, value: u8)
        requires
            bus_wf(old(self)@),
        ensures
            bus_wf(final(self)@),
            final(self)@ == dma_spec(old(self)@, (value as int * 256) as u16, 256),
    {
        let src = (value as u16) * 256;
        let ghost m0 = self@;
        let mut i: u16 = 0;
        while i < 256
            invariant
                0 <= i <= 256,
                src == value as int * 256,
                bus_wf(self@),
                self@ == dma_spec(m0, src, i as nat),
            decreases 256 - i,
        {
            let ghost before = self@;
            let b = self.read(src + i);
            let ghost after_read = self@;
            assert((after_read, b) == bus_read(before, (src + i) as u16));
            self.ppu.write_oam(i as u8, b);
            assert(self@ == (NesBusView {
                ppu: PpuView { oam: after_read.ppu.oam.update(i as int, b), ..after_read.ppu },
                ..after_read
            }));
            i = i + 1;
        }
    }
}

impl Bus for NesBus {
    open spec fn inv(m: NesBusView) -> bool {
        bus_wf(m)
    }

    open spec fn read_spec(m: NesBusView, addr: u16) -> (NesBusView, u8) {
        bus_read(m, addr)
    }

    open spec fn write_spec(m: NesBusView, addr: u16, value: u8) -> NesBusView {
        bus_write(m, addr, value)
    }

    fn read(&mut self, addr: u16) -> (r: u8) {
        if addr <= 0x1FFF {
            self.ram[(addr % 0x800) as usize]
        } else if addr <= 0x3FFF {
            self.ppu.read_reg(addr, &self.cart)
        } else if 0x6000 <= addr && addr <= 0x7FFF {
            self.cart.wram_read(addr)
        } else if addr == 0x4016 {
            let bit = if self.strobe {
                self.buttons & 1
            } else {
                let b = self.shift & 1;
                self.shift = self.shift >> 1;
                b
            };
            bit | 0x40
        } else if addr >= 0x8000 {
            self.cart.prg_read(addr)
        } else {
            0
        }
    }

    fn write(&mut self, addr: u16, value: u8) {
        if addr <= 0x1FFF {
            self.ram[(addr % 0x800) as usize] = value;
        } else if addr <= 0x3FFF {
            self.ppu.write_reg(addr, value, &mut self.cart);
        } else if addr == 0x4014 {
            self.oam_dma(value);
            self.ppu.set_oam_addr(0);
            self.dma_stall = self.dma_stall.wrapping_add(513);
        } else if addr == 0x4016 {
            self.strobe = value & 1 != 0;
            if self.strobe {
                self.shift = self.buttons;
            }
        } else if 0x6000 <= addr && addr <= 0x7FFF {
            self.cart.wram_write(addr, value);
        } else if addr >= 0x8000 {
            self.cart.prg_write(addr, value);
        }
    }
}


// ---------------------------------------------------------------------------
// Reads without side effects
// ---------------------------------------------------------------------------
/// The byte at `addr` in RAM, work RAM or PRG; 0 elsewhere.
pub open spec fn peek_spec(m: NesBusView, addr: u16) -> u8 {
    if addr <= 0x1FFF {
        m.ram[addr as int % 0x800]
    } else if 0x6000 <= addr <= 0x7FFF {
        wram_read_spec(m.cart, addr)
    } else if addr >= 0x8000 {
        prg_read_spec(m.cart, addr)
    } else {
        0
    }
}

// ---------------------------------------------------------------------------
// Rewind
// ---------------------------------------------------------------------------
/// Snapshots of the last frames, taken every `interval` frames and kept up
/// to `max_snapshots` (the oldest is dropped first).
pub struct RewindManager {
    snapshots: VecDeque<NesState>,
    max_snapshots: usize,
    frame_counter: usize,
    interval: usize,
}

/// A rewind buffer, as seen by contracts.
pub struct RewindView {
    pub snapshots: Seq<NesStateView>,
    pub max_snapshots: usize,
    pub frame_counter: usize,
    pub interval: usize,
}

impl View for RewindManager {
    type V = RewindView;

    closed spec fn view(&self) -> RewindView {
        RewindView {
            snapshots: self.snapshots@.map_values(|s: NesState| s@),
            max_snapshots: self.max_snapshots,
            frame_counter: self.frame_counter,
            interval: self.interval,
        }
    }
}

/// How many snapshots the buffer holds at most (one even when
/// `max_snapshots` is 0).
pub open spec fn rewind_capacity(r: RewindView) -> int {
    if r.max_snapshots == 0 {
        1
    } else {
        r.max_snapshots as int
    }
}

/// Whether the next recorded frame is kept.
pub open spec fn keeps_next(r: RewindView) -> bool {
    r.interval != 0 && (r.frame_counter + 1) % (r.interval as int) == 0
}

/// The buffer after frame snapshot `s` is offered.
pub open spec fn record_spec(r: RewindView, s: NesStateView) -> RewindView {
    let r1 = RewindView { frame_counter: (r.frame_counter + 1) as usize, ..r };
    if keeps_next(r) {
        let kept = if r.snapshots.len() >= r.max_snapshots && r.snapshots.len() > 0 {
            r.snapshots.drop_first()
        } else {
            r.snapshots
        };
        RewindView { snapshots: kept.push(s), ..r1 }
    } else {
        r1
    }
}

/// The empty buffer that `RewindManager::new(seconds, interval)` makes.
pub open spec fn rewind_new_spec(seconds: usize, interval: usize) -> RewindView {
    RewindView {
        snapshots: Seq::empty(),
        max_snapshots: (seconds * 60 / (if interval > 1 {
            interval as int
        } else {
            1
        })) as usize,
        frame_counter: 0,
        interval,
    }
}

/// The buffer after `clear`: no snapshots and no frames counted.
pub open spec fn rewind_clear_spec(r: RewindView) -> RewindView {
    RewindView { snapshots: Seq::empty(), frame_counter: 0, ..r }
}

/// The buffer after `pop_prev` (the newest snapshot taken).
pub open spec fn rewind_pop_spec(r: RewindView) -> RewindView {
    if r.snapshots.len() == 0 {
        r
    } else {
        RewindView { snapshots: r.snapshots.drop_last(), ..r }
    }
}

impl RewindManager {
    /// Room for `seconds_to_record` seconds of 60 frames, one snapshot every
    /// `interval` frames (an interval of 0 counts as 1 here).
    pub fn new(seconds_to_record: usize, interval: usize) -> (r: Self)
        requires
            seconds_to_record * 60 <= usize::MAX,
        ensures
            r@ == rewind_new_spec(seconds_to_record, interval),
    {
        let per = if interval > 1 {
            interval
        } else {
            1
        };
        let max_snapshots = (seconds_to_record * 60) / per;
        let r = RewindManager {
            snapshots: VecDeque::with_capacity(max_snapshots),
            max_snapshots,
            frame_counter: 0,
            interval,
        };
        assert(r.snapshots@.map_values(|s: NesState| s@) =~= Seq::<NesStateView>::empty());
        r
    }

    /// Counts a frame and keeps its snapshot `state` when the frame count is
    /// a multiple of the interval, dropping the oldest snapshot when full.
    pub fn record(&mut self, state: NesState)
        requires
            old(self)@.frame_counter < usize::MAX,
        ensures
            final(self)@ == record_spec(old(self)@, state@),
    {
        let ghost sv = state@;
        self.frame_counter = self.frame_counter + 1;
        if self.frame_counter.is_multiple_of(self.interval) {
            let ghost before = self.snapshots@;
            if self.snapshots.len() >= self.max_snapshots {
                let _ = self.snapshots.pop_front();
            }
            let ghost mid = self.snapshots@;
            self.snapshots.push_back(state);
            proof {
                assert(self.snapshots@ =~= mid.push(state));
                assert(mid.push(state).map_values(|s: NesState| s@) =~= mid.map_values(
                    |s: NesState| s@,
                ).push(sv));
                if before.len() >= self.max_snapshots && before.len() > 0 {
                    assert(mid.map_values(|s: NesState| s@) =~= before.map_values(
                        |s: NesState| s@,
                    ).drop_first());
                }
            }
        }
    }

    /// Takes the newest snapshot.
    pub fn pop_prev(&mut self) -> (r: Option<NesState>)
        ensures
            final(self)@ == rewind_pop_spec(old(self)@),
            old(self)@.snapshots.len() == 0 ==> r is None,
            old(self)@.snapshots.len() > 0 ==> r is Some && r->0@ == old(self)@.snapshots.last(),
    {
        let ghost before = self.snapshots@;
        let r = self.snapshots.pop_back();
        proof {
            if before.len() > 0 {
                assert(self.snapshots@.map_values(|s: NesState| s@) =~= before.map_values(
                    |s: NesState| s@,
                ).drop_last());
            }
        }
        r
    }

    /// Forgets every snapshot and restarts the frame count.
    pub fn clear(&mut self)
        ensures
            final(self)@ == rewind_clear_spec(old(self)@),
    {
        self.snapshots.clear();
        self.frame_counter = 0;
        assert(self.snapshots@.map_values(|s: NesState| s@) =~= Seq::<NesStateView>::empty());
    }

    /// Frames counted since the buffer was made or cleared.
    pub fn frame_counter(&self) -> (r: usize)
        ensures
            r == self@.frame_counter,
    {
        self.frame_counter
    }
}

// ---------------------------------------------------------------------------
// Running the processor
// ---------------------------------------------------------------------------
/// The processor run until at least `budget` cycles have passed since
/// `done`: pending DMA stall cycles are spent first; false when an opcode
/// outside the table stops it.
pub open spec fn run_spec(c: Cpu, m: NesBusView, budget: u32, done: int) -> (Cpu, NesBusView, bool)
    decreases (if done < budget {
        budget - done
    } else {
        0
    }),
{
    if done >= budget {
        (c, m, true)
    } else if m.dma_stall > 0 {
        let n = if (m.dma_stall as int) < budget - done {
            m.dma_stall as int
        } else {
            budget - done
        };
        run_spec(c, NesBusView { dma_stall: (m.dma_stall - n) as u32, ..m }, budget, done + n)
    } else {
        let (c1, m1, n) = step_sem::<NesBus>(c, m);
        if n == 0 {
            (c1, m1, false)
        } else {
            run_spec(c1, m1, budget, done + n)
        }
    }
}

impl NesBus {
    /// Spends up to `max` of the pending DMA stall cycles and returns how
    /// many.
    fn take_stall(&mut self, max: u32) -> (n: u32)
        ensures
            n == (if old(self)@.dma_stall < max {
                old(self)@.dma_stall
            } else {
                max
            }),
            final(self)@ == (NesBusView { dma_stall: (old(self)@.dma_stall - n) as u32, ..old(self)@ }),
    {
        let n = if self.dma_stall < max {
            self.dma_stall
        } else {
            max
        };
        self.dma_stall = self.dma_stall - n;
        n
    }

    /// The byte at `addr` in RAM, work RAM or PRG, read without side
    /// effects; 0 for the I/O registers.
    pub fn peek(&self, addr: u16) -> (r: u8)
        requires
            bus_wf(self@),
        ensures
            r == peek_spec(self@, addr),
    {
        if addr <= 0x1FFF {
            self.ram[(addr % 0x800) as usize]
        } else if 0x6000 <= addr && addr <= 0x7FFF {
            self.cart.wram_read(addr)
        } else if addr >= 0x8000 {
            self.cart.prg_read(addr)
        } else {
            0
        }
    }
}

/// Runs the processor for at least `budget` cycles; false when it hit an
/// opcode outside its table.
pub fn run_cpu(cpu: &mut Cpu, bus: &mut NesBus, budget: u32) -> (ok: bool)
    requires
        bus_wf(old(bus)@),
        budget <= 0xFFFF_0000,
    ensures
        bus_wf(final(bus)@),
        (*final(cpu), final(bus)@, ok) == run_spec(*old(cpu), old(bus)@, budget, 0),
{
    let mut cycles: u32 = 0;
    while cycles < budget
        invariant
            bus_wf(bus@),
            budget <= 0xFFFF_0000,
            cycles <= budget + 7,
            run_spec(*cpu, bus@, budget, cycles as int) == run_spec(*old(cpu), old(bus)@, budget, 0),
        decreases budget + 8 - cycles,
    {
        if bus.dma_stall > 0 {
            let n = bus.take_stall(budget - cycles);
            cycles = cycles + n;
            continue;
        }
        let ghost c0 = *cpu;
        let ghost m0 = bus@;
        let n = cpu.step(bus);
        proof {
            lemma_step_cycles::<NesBus>(c0, m0);
        }
        if n == 0 {
            return false;
        }
        cycles = cycles + n;
    }
    true
}

/// The controller byte for the held buttons: A, B, Select, Start, Up, Down,
/// Left, Right from bit 0 up.
pub open spec fn pad_bits(p: Pad) -> u8 {
    ((if p.a {
        1int
    } else {
        0
    }) + (if p.b {
        2int
    } else {
        0
    }) + (if p.select {
        4int
    } else {
        0
    }) + (if p.start {
        8int
    } else {
        0
    }) + (if p.up {
        16int
    } else {
        0
    }) + (if p.down {
        32int
    } else {
        0
    }) + (if p.left {
        64int
    } else {
        0
    }) + (if p.right {
        128int
    } else {
        0
    })) as u8
}

/// The controller byte for the held buttons of `p`.
pub fn pad_to_nes(p: Pad) -> (r: u8)
    ensures
        r == pad_bits(p),
{
    let mut r: u8 = 0;
    if p.a {
        r = r + 1;
    }
    if p.b {
        r = r + 2;
    }
    if p.select {
        r = r + 4;
    }
    if p.start {
        r = r + 8;
    }
    if p.up {
        r = r + 16;
    }
    if p.down {
        r = r + 32;
    }
    if p.left {
        r = r + 64;
    }
    if p.right {
        r = r + 128;
    }
    r
}


// ---------------------------------------------------------------------------
// The machine
// ---------------------------------------------------------------------------
/// The non-maskable interrupt: PC and the status (B clear, U set) are
/// pushed, I is set and PC is loaded from the vector at 0xFFFA.
pub open spec fn nmi_spec(c: Cpu, m: NesBusView) -> (Cpu, NesBusView) {
    let (c1, m1) = push_spec::<NesBus>(c, m, hi_byte(c.pc));
    let (c2, m2) = push_spec::<NesBus>(c1, m1, lo_byte(c.pc));
    let (c3, m3) = push_spec::<NesBus>(c2, m2, (c.p | FLAG_U) & !FLAG_B);
    let (m4, lo) = bus_read(m3, 0xFFFA);
    let (m5, hi) = bus_read(m4, 0xFFFB);
    (Cpu { p: c3.p | FLAG_I, pc: word(hi, lo), ..c3 }, m5)
}

/// A visible line drawn into `buf`: start of line, background, sprites, end
/// of line.
pub open spec fn render_line_spec(m: NesBusView, buf: Seq<u32>) -> (NesBusView, Seq<u32>) {
    let p1 = begin_line_spec(m.ppu, m.cart);
    let p2 = PpuView { bg_cid: line_cids(p1, m.cart), ..p1 };
    let b2 = splice(buf, p1.ly * 256, line_colors(p1, m.cart));
    (NesBusView { ppu: end_line_spec(p2), ..m }, draw_sprites_spec(p2, m.cart, b2))
}

/// The processor, the bus and the picture between two lines.
pub struct Machine {
    pub cpu: Cpu,
    pub bus: NesBusView,
    pub buffer: Seq<u32>,
}

/// Line `ly` of a frame: VBlank (and the NMI when enabled) starts at line
/// 241, lines below 240 are drawn, the pre-render line is 261, and the
/// processor runs 113 cycles per line. False when the processor stopped.
#[verifier::opaque]
pub open spec fn line_spec(s: Machine, ly: u16) -> (Machine, bool) {
    let m1 = NesBusView { ppu: PpuView { ly, ..s.bus.ppu }, ..s.bus };
    let (c2, m2) = if ly == 241 {
        let mv = NesBusView { ppu: PpuView { status: m1.ppu.status | 0x80, ..m1.ppu }, ..m1 };
        if mv.ppu.ctrl & 0x80 != 0 {
            nmi_spec(s.cpu, mv)
        } else {
            (s.cpu, mv)
        }
    } else {
        (s.cpu, m1)
    };
    if ly >= 241 {
        let (c3, m3, ok) = run_spec(c2, m2, 113, 0);
        if ok && ly == 261 {
            (
                Machine { cpu: c3, bus: NesBusView { ppu: pre_render_spec(m3.ppu), ..m3 }, buffer: s.buffer },
                true,
            )
        } else {
            (Machine { cpu: c3, bus: m3, buffer: s.buffer }, ok)
        }
    } else {
        let (m3, b3) = if ly < 240 {
            render_line_spec(m2, s.buffer)
        } else {
            (m2, s.buffer)
        };
        let (c4, m4, ok) = run_spec(c2, m3, 113, 0);
        (Machine { cpu: c4, bus: m4, buffer: b3 }, ok)
    }
}

/// The first `k` lines of a frame, stopping at the line where the
/// processor stopped.
pub open spec fn lines_spec(s: Machine, k: nat) -> (Machine, bool)
    decreases k,
{
    if k == 0 {
        (s, true)
    } else {
        let (s1, ok) = lines_spec(s, (k - 1) as nat);
        if !ok {
            (s1, false)
        } else {
            line_spec(s1, (k - 1) as u16)
        }
    }
}

/// Why a cartridge cannot be run.
#[derive(Debug, PartialEq, Eq, Structural)]
pub enum EmuError {
    /// Only mappers 0 to 3 are accepted.
    UnsupportedMapper(u16),
}

/// An NES: processor, bus, a 256x240 picture, a quick-save slot and five
/// minutes of rewind.
pub struct Emu {
    cpu: Cpu,
    bus: NesBus,
    buffer: Vec<u32>,
    quick_save: Option<NesState>,
    rewind: RewindManager,
}

/// The machine, as seen by contracts.
pub struct EmuView {
    pub cpu: Cpu,
    pub bus: NesBusView,
    pub buffer: Seq<u32>,
    pub quick_save: Option<NesStateView>,
    pub rewind: RewindView,
}

impl View for Emu {
    type V = EmuView;

    closed spec fn view(&self) -> EmuView {
        EmuView {
            cpu: self.cpu,
            bus: self.bus@,
            buffer: self.buffer@,
            quick_save: match self.quick_save {
                Some(s) => Some(s@),
                None => None,
            },
            rewind: self.rewind@,
        }
    }
}

/// Every rewind snapshot can be loaded back.
#[verifier::opaque]
pub open spec fn snapshots_wf(r: RewindView) -> bool {
    forall|i: int| 0 <= i < r.snapshots.len() ==> state_wf(#[trigger] r.snapshots[i])
}

/// A well-formed bus and picture, and snapshots that can be loaded back.
pub open spec fn emu_wf(e: EmuView) -> bool {
    &&& bus_wf(e.bus)
    &&& e.buffer.len() == WIDTH * HEIGHT
    &&& (e.quick_save matches Some(s) ==> state_wf(s))
    &&& snapshots_wf(e.rewind)
}

/// The machine view of an emulator.
pub open spec fn machine_of(e: EmuView) -> Machine {
    Machine { cpu: e.cpu, bus: e.bus, buffer: e.buffer }
}

/// The emulator with the machine replaced by `s`.
pub open spec fn with_machine(e: EmuView, s: Machine) -> EmuView {
    EmuView { cpu: s.cpu, bus: s.bus, buffer: s.buffer, ..e }
}

/// A freshly started emulator for `cart`: cleared memories, the picture
/// unit at power-up, and the processor at the reset vector, or at 0xC000
/// for the nestest automation.
pub open spec fn start_spec(cart: CartView, nestest: bool) -> EmuView {
    let m0 = NesBusView {
        ram: Seq::new(0x800, |i: int| 0u8),
        cart,
        ppu: ppu_power_up(),
        buttons: 0,
        strobe: false,
        shift: 0,
        dma_stall: 0,
    };
    let (cpu, bus) = if nestest {
        (Cpu { pc: 0xC000, ..Cpu::new_spec() }, m0)
    } else {
        let (m1, lo) = bus_read(m0, 0xFFFC);
        let (m2, hi) = bus_read(m1, 0xFFFD);
        (Cpu { pc: word(hi, lo), p: Cpu::new_spec().p | FLAG_I | FLAG_U, ..Cpu::new_spec() }, m2)
    };
    EmuView {
        cpu,
        bus,
        buffer: Seq::new((WIDTH * HEIGHT) as nat, |i: int| 0u32),
        quick_save: None,
        rewind: RewindView {
            snapshots: Seq::empty(),
            max_snapshots: 18000,
            frame_counter: 0,
            interval: 1,
        },
    }
}

/// The emulator after this frame's input: the buttons, then a quick save,
/// then a quick load (which also forgets the rewind history).
pub open spec fn input_spec(e: EmuView, pad: Pad, ui: Ui) -> EmuView {
    let e1 = EmuView { bus: NesBusView { buttons: pad_bits(pad), ..e.bus }, ..e };
    let e2 = if ui.save {
        EmuView { quick_save: Some(capture_view(e1.bus, e1.cpu)), ..e1 }
    } else {
        e1
    };
    if ui.load && e2.quick_save is Some {
        let s = e2.quick_save->0;
        EmuView {
            cpu: s.cpu,
            bus: load_view(e2.bus, s),
            rewind: RewindView { snapshots: Seq::empty(), frame_counter: 0, ..e2.rewind },
            ..e2
        }
    } else {
        e2
    }
}

/// The emulator after the rest of a frame: when rewinding, the newest
/// snapshot (if any) is loaded and one frame is run from it; otherwise one
/// frame is run and its end state is offered to the rewind buffer. False
/// when the processor stopped.
pub open spec fn advance_spec(e: EmuView, rewind: bool) -> (EmuView, bool) {
    if rewind {
        if e.rewind.snapshots.len() == 0 {
            (e, true)
        } else {
            let s = e.rewind.snapshots.last();
            let e1 = EmuView {
                cpu: s.cpu,
                bus: load_view(e.bus, s),
                rewind: RewindView { snapshots: e.rewind.snapshots.drop_last(), ..e.rewind },
                ..e
            };
            let (m, ok) = lines_spec(machine_of(e1), 262);
            (with_machine(e1, m), ok)
        }
    } else {
        let (m, ok) = lines_spec(machine_of(e), 262);
        let e1 = with_machine(e, m);
        if ok {
            (EmuView { rewind: record_spec(e1.rewind, capture_view(e1.bus, e1.cpu)), ..e1 }, true)
        } else {
            (e1, false)
        }
    }
}

proof fn lemma_lines_stop(s: Machine, k: nat, k2: nat)
    requires
        k <= k2,
        !lines_spec(s, k).1,
    ensures
        lines_spec(s, k2) == lines_spec(s, k),
    decreases k2,
{
    if k2 > k {
        lemma_lines_stop(s, k, (k2 - 1) as nat);
    }
}

impl Emu {
    /// An emulator for `cart` (mappers 0 to 3), started at the reset vector,
    /// or at 0xC000 when `nestest` asks for the nestest automation.
    pub fn load(cart: Cart, nestest: bool) -> (r: Result<Emu, EmuError>)
        requires
            cart.wf(),
        ensures
            cart@.mapper > 3 ==> r == Err::<Emu, EmuError>(EmuError::UnsupportedMapper(cart@.mapper)),
            cart@.mapper <= 3 ==> r is Ok && emu_wf(r->Ok_0@) && r->Ok_0@ == start_spec(cart@, nestest),
    {
        let mapper = cart.mapper_id();
        if mapper > 3 {
            return Err(EmuError::UnsupportedMapper(mapper));
        }
        let mut cpu = Cpu::new();
        let mut bus = NesBus::new(cart);
        if nestest {
            cpu.reset_at(0xC000);
        } else {
            cpu.reset(&mut bus);
        }
        let buffer = vec![0u32; WIDTH * HEIGHT];
        let rewind = RewindManager::new(300, 1);
        let e = Emu { cpu, bus, buffer, quick_save: None, rewind };
        assert(e@.buffer =~= Seq::new((WIDTH * HEIGHT) as nat, |i: int| 0u32));
        proof {
            reveal(snapshots_wf);
        }
        Ok(e)
    }

    /// The picture, 256x240 pixels row by row.
    pub fn pixels(&self) -> (r: &[u32])
        ensures
            r@ == self@.buffer,
    {
        self.buffer.as_slice()
    }

    /// The processor.
    pub fn cpu(&self) -> (r: &Cpu)
        ensures
            *r == self@.cpu,
    {
        &self.cpu
    }

    /// The picture unit.
    pub fn ppu(&self) -> (r: &Ppu)
        ensures
            r@ == self@.bus.ppu,
    {
        &self.bus.ppu
    }

    /// The controller: held buttons, strobe, and the shift register.
    pub fn controller(&self) -> (r: (u8, bool, u8))
        ensures
            r == (self@.bus.buttons, self@.bus.strobe, self@.bus.shift),
    {
        (self.bus.buttons, self.bus.strobe, self.bus.shift)
    }

    /// The byte at `addr` in RAM, work RAM or PRG, read without side
    /// effects; 0 for the I/O registers.
    pub fn peek(&self, addr: u16) -> (r: u8)
        requires
            emu_wf(self@),
        ensures
            r == peek_spec(self@.bus, addr),
    {
        self.bus.peek(addr)
    }

    /// Frames counted by the rewind buffer.
    pub fn frame_counter(&self) -> (r: usize)
        ensures
            r == self@.rewind.frame_counter,
    {
        self.rewind.frame_counter()
    }

    /// The start of VBlank: the flag is set and, when enabled, the NMI taken.
    fn vblank(&mut self)
        requires
            emu_wf(old(self)@),
        ensures
            emu_wf(final(self)@),
            ({
                let m = old(self)@.bus;
                let mv = NesBusView { ppu: PpuView { status: m.ppu.status | 0x80, ..m.ppu }, ..m };
                (final(self)@.cpu, final(self)@.bus) == if mv.ppu.ctrl & 0x80 != 0 {
                    nmi_spec(old(self)@.cpu, mv)
                } else {
                    (old(self)@.cpu, mv)
                }
            }),
            final(self)@.buffer == old(self)@.buffer,
            final(self)@.quick_save == old(self)@.quick_save,
            final(self)@.rewind == old(self)@.rewind,
    {
        self.bus.ppu.enter_vblank();
        if self.bus.ppu.nmi_enabled() {
            let ret = self.cpu.pc;
            self.cpu.push(&mut self.bus, (ret / 256) as u8);
            self.cpu.push(&mut self.bus, (ret % 256) as u8);
            let p = (self.cpu.p | FLAG_U) & !FLAG_B;
            self.cpu.push(&mut self.bus, p);
            self.cpu.p = self.cpu.p | FLAG_I;
            let lo = self.bus.read(0xFFFA);
            let hi = self.bus.read(0xFFFB);
            self.cpu.pc = (hi as u16) * 256 + lo as u16;
        }
    }

    /// Draws the current line (below 240).
    fn render_line(&mut self)
        requires
            emu_wf(old(self)@),
            old(self)@.bus.ppu.ly < 240,
        ensures
            emu_wf(final(self)@),
            (final(self)@.bus, final(self)@.buffer) == render_line_spec(old(self)@.bus, old(self)@.buffer),
            final(self)@.cpu == old(self)@.cpu,
            final(self)@.quick_save == old(self)@.quick_save,
            final(self)@.rewind == old(self)@.rewind,
    {
        self.bus.ppu.begin_visible_line(&self.bus.cart);
        self.bus.ppu.draw_scanline(&self.bus.cart, self.buffer.as_mut_slice());
        proof {
            let p = self.bus@.ppu;
            let c = self.bus@.cart;
            lemma_sprites_keep_len(p, c, 64, self.buffer@);
            assert(sprites_fit(p, c, self.buffer@.len() as int));
        }
        self.bus.ppu.draw_sprites(&self.bus.cart, self.buffer.as_mut_slice());
        self.bus.ppu.end_visible_line();
    }

    /// Runs the processor for one line.
    fn run_cpu_line(&mut self) -> (ok: bool)
        requires
            emu_wf(old(self)@),
        ensures
            emu_wf(final(self)@),
            (final(self)@.cpu, final(self)@.bus, ok) == run_spec(old(self)@.cpu, old(self)@.bus, 113, 0),
            final(self)@.buffer == old(self)@.buffer,
            final(self)@.quick_save == old(self)@.quick_save,
            final(self)@.rewind == old(self)@.rewind,
    {
        run_cpu(&mut self.cpu, &mut self.bus, 113)
    }

    /// One line of the frame; false when the processor stopped.
    fn run_line(&mut self, ly: u16) -> (ok: bool)
        requires
            emu_wf(old(self)@),
            ly < 262,
        ensures
            emu_wf(final(self)@),
            (machine_of(final(self)@), ok) == line_spec(machine_of(old(self)@), ly),
            final(self)@.quick_save == old(self)@.quick_save,
            final(self)@.rewind == old(self)@.rewind,
    {
        reveal(line_spec);
        self.bus.ppu.set_line(ly);
        if ly == 241 {
            self.vblank();
        }
        if ly >= 241 {
            if !self.run_cpu_line() {
                return false;
            }
            if ly == 261 {
                self.bus.ppu.pre_render();
            }
            return true;
        }
        if ly < 240 {
            self.render_line();
        }
        self.run_cpu_line()
    }

    /// One frame of 262 lines; false when the processor stopped.
    fn emulate_one(&mut self) -> (ok: bool)
        requires
            emu_wf(old(self)@),
        ensures
            emu_wf(final(self)@),
            (machine_of(final(self)@), ok) == lines_spec(machine_of(old(self)@), 262),
            final(self)@.quick_save == old(self)@.quick_save,
            final(self)@.rewind == old(self)@.rewind,
    {
        let ghost s0 = machine_of(self@);
        let mut ly: u16 = 0;
        while ly < 262
            invariant
                0 <= ly <= 262,
                emu_wf(self@),
                lines_spec(s0, ly as nat) == (machine_of(self@), true),
                s0 == machine_of(old(self)@),
                self@.quick_save == old(self)@.quick_save,
                self@.rewind == old(self)@.rewind,
            decreases 262 - ly,
        {
            let ghost before = machine_of(self@);
            let ok = self.run_line(ly);
            assert(lines_spec(s0, (ly + 1) as nat) == line_spec(before, ly));
            if !ok {
                proof {
                    lemma_lines_stop(s0, (ly + 1) as nat, 262);
                }
                return false;
            }
            ly = ly + 1;
        }
        true
    }

    /// This frame's input: the buttons, a quick save, then a quick load.
    pub fn apply_input(&mut self, pad: Pad, ui: Ui)
        requires
            emu_wf(old(self)@),
        ensures
            emu_wf(final(self)@),
            final(self)@ == input_spec(old(self)@, pad, ui),
    {
        proof {
            reveal(snapshots_wf);
        }
        self.bus.buttons = pad_to_nes(pad);
        if ui.save {
            self.quick_save = Some(self.bus.capture_state(&self.cpu));
        }
        if ui.load {
            if let Some(state) = &self.quick_save {
                self.bus.load_state(&mut self.cpu, state);
                self.rewind.clear();
            }
        }
    }

    /// The rest of a frame: one frame run from the newest rewind snapshot
    /// when `rewind` asks for it, otherwise one frame run and recorded.
    /// False when the processor stopped.
    pub fn advance(&mut self, rewind: bool) -> (ok: bool)
        requires
            emu_wf(old(self)@),
            !rewind ==> old(self)@.rewind.frame_counter < usize::MAX,
        ensures
            emu_wf(final(self)@),
            (final(self)@, ok) == advance_spec(old(self)@, rewind),
    {
        proof {
            reveal(snapshots_wf);
        }
        if rewind {
            let ghost snaps = self@.rewind.snapshots;
            match self.rewind.pop_prev() {
                Some(prev) => {
                    assert(state_wf(snaps[snaps.len() - 1]));
                    assert(snapshots_wf(self@.rewind)) by {
                        assert forall|i: int| 0 <= i < self@.rewind.snapshots.len() implies state_wf(
                            #[trigger] self@.rewind.snapshots[i],
                        ) by {
                            assert(self@.rewind.snapshots[i] == snaps[i]);
                        }
                    }
                    self.bus.load_state(&mut self.cpu, &prev);
                    self.emulate_one()
                },
                None => true,
            }
        } else {
            let ok = self.emulate_one();
            if ok {
                let state = self.bus.capture_state(&self.cpu);
                let ghost r0 = self@.rewind;
                self.rewind.record(state);
                assert(snapshots_wf(self@.rewind)) by {
                    let r1 = self@.rewind;
                    assert forall|i: int| 0 <= i < r1.snapshots.len() implies state_wf(
                        #[trigger] r1.snapshots[i],
                    ) by {
                        if keeps_next(r0) {
                            if r0.snapshots.len() >= r0.max_snapshots && r0.snapshots.len() > 0 {
                                if i < r1.snapshots.len() - 1 {
                                    assert(r1.snapshots[i] == r0.snapshots[i + 1]);
                                }
                            } else {
                                if i < r1.snapshots.len() - 1 {
                                    assert(r1.snapshots[i] == r0.snapshots[i]);
                                }
                            }
                        } else {
                            assert(r1.snapshots[i] == r0.snapshots[i]);
                        }
                    }
                }
            }
            ok
        }
    }

    /// One frame with `pad` held and the requests of `ui`; false when the
    /// processor stopped.
    pub fn frame(&mut self, pad: Pad, ui: Ui) -> (ok: bool)
        requires
            emu_wf(old(self)@),
            !ui.rewind ==> old(self)@.rewind.frame_counter < usize::MAX,
        ensures
            emu_wf(final(self)@),
            (final(self)@, ok) == advance_spec(input_spec(old(self)@, pad, ui), ui.rewind),
    {
        self.apply_input(pad, ui);
        self.advance(ui.rewind)
    }
}


// ---------------------------------------------------------------------------
// Laws
// ---------------------------------------------------------------------------
/// A byte written to RAM reads back at the same address and at each of its
/// mirrors, and the read changes nothing.
pub proof fn lemma_ram_roundtrip(m: NesBusView, a: u16, b: u16, v: u8)
    requires
        bus_wf(m),
        a <= 0x1FFF,
        b <= 0x1FFF,
        a % 0x800 == b % 0x800,
    ensures
        bus_read(bus_write(m, a, v), b) == (bus_write(m, a, v), v),
{
}

/// Reads outside the picture-unit registers and the controller port have
/// no side effect and give the byte that `peek` gives.
pub proof fn lemma_peek_read(m: NesBusView, addr: u16)
    requires
        !(0x2000 <= addr <= 0x3FFF),
        addr != 0x4016,
    ensures
        bus_read(m, addr) == (m, peek_spec(m, addr)),
{
}

/// A byte pushed on the stack pops back, with the stack pointer restored.
#[verifier::spinoff_prover]
#[verifier::rlimit(50)]
pub proof fn lemma_push_pop(c: Cpu, m: NesBusView, v: u8)
    requires
        bus_wf(m),
    ensures
        ({
            let (c1, m1) = push_spec::<NesBus>(c, m, v);
            let (c2, m2, r) = pop_spec::<NesBus>(c1, m1);
            r == v && c2 == c && m2 == m1
        }),
{
    let (c1, m1) = push_spec::<NesBus>(c, m, v);
    let a = (0x100 + c.sp) as u16;
    assert(a <= 0x1FFF);
    assert(m1 == bus_write(m, a, v));
    assert(m1 == (NesBusView { ram: m.ram.update(a as int % 0x800, v), ..m }));
    assert(wadd8(wadd8(c.sp, -1), 1) == c.sp);
    assert(bus_read(m1, a) == (m1, v));
}

/// Whether two cartridges hold the same image (what a snapshot does not
/// record).
pub open spec fn same_image(a: CartView, b: CartView) -> bool {
    a.prg == b.prg && a.mapper == b.mapper && a.prg_banks == b.prg_banks && a.chr_banks == b.chr_banks
        && a.has_trainer == b.has_trainer
}

/// Loading a snapshot restores the processor and the bus it was taken from,
/// on any bus that holds the same cartridge image.
pub proof fn lemma_load_capture(m: NesBusView, c: Cpu, other: NesBusView)
    requires
        same_image(other.cart, m.cart),
    ensures
        load_view(other, capture_view(m, c)) == m,
        capture_view(m, c).cpu == c,
{
}

/// A snapshot taken from a running machine can be loaded back.
pub proof fn lemma_capture_wf(m: NesBusView, c: Cpu)
    requires
        bus_wf(m),
    ensures
        state_wf(capture_view(m, c)),
{
}

/// A quick load brings back the machine of the last quick save: the
/// processor, and the bus with the buttons held at the save.
pub proof fn lemma_save_then_load(e: EmuView, pad: Pad, ui: Ui, e2: EmuView, pad2: Pad, ui2: Ui)
    requires
        ui.save,
        e2.quick_save == input_spec(e, pad, ui).quick_save,
        same_image(e2.bus.cart, e.bus.cart),
        ui2.load,
        !ui2.save,
    ensures
        input_spec(e2, pad2, ui2).cpu == e.cpu,
        input_spec(e2, pad2, ui2).bus == (NesBusView { buttons: pad_bits(pad), ..e.bus }),
{
    let e1 = EmuView { bus: NesBusView { buttons: pad_bits(pad), ..e.bus }, ..e };
    lemma_load_capture(e1.bus, e1.cpu, NesBusView { buttons: pad_bits(pad2), ..e2.bus });
    lemma_load_capture(e1.bus, e1.cpu, e1.bus);
}

/// A kept snapshot is the one that rewinding gives back first.
pub proof fn lemma_record_then_pop(r: RewindView, s: NesStateView)
    requires
        keeps_next(r),
    ensures
        record_spec(r, s).snapshots.len() > 0,
        record_spec(r, s).snapshots.last() == s,
{
}

/// The rewind buffer never holds more snapshots than its capacity.
pub proof fn lemma_record_bounded(r: RewindView, s: NesStateView)
    requires
        r.snapshots.len() <= rewind_capacity(r),
    ensures
        record_spec(r, s).snapshots.len() <= rewind_capacity(record_spec(r, s)),
{
}

/// Writing 1 then 0 to the controller port latches the buttons; each read
/// then gives the next button, from A (bit 0) to Right (bit 7), in bit 0,
/// with bit 6 set.
pub proof fn lemma_controller_latch(m: NesBusView)
    ensures
        ({
            let m2 = bus_write(bus_write(m, 0x4016, 1), 0x4016, 0);
            !m2.strobe && m2.shift == m.buttons
        }),
{
    assert(1u8 & 1 != 0 && 0u8 & 1 == 0) by (bit_vector);
}

/// One read of the controller port after the latch (see
/// `lemma_controller_latch`): the `k`th read gives button `k`.
pub proof fn lemma_controller_read(m: NesBusView, k: u8)
    requires
        !m.strobe,
        k < 8,
        m.shift == m.buttons >> k,
    ensures
        bus_read(m, 0x4016) == (
            NesBusView { shift: m.buttons >> ((k + 1) as u8), ..m },
            ((m.buttons >> k) & 1) | 0x40,
        ),
{
    let b = m.buttons;
    assert(k < 8 ==> (b >> k) >> 1u8 == b >> ((k + 1) as u8)) by (bit_vector);
}

/// The buffer after each state of `ss` is offered in turn, first to last.
pub open spec fn record_all(r: RewindView, ss: Seq<NesStateView>) -> RewindView
    decreases ss.len(),
{
    if ss.len() == 0 {
        r
    } else {
        record_spec(record_all(r, ss.drop_last()), ss.last())
    }
}

/// Every `interval`-th state of `ss`, oldest first: the states offered as
/// frames `interval`, `2 * interval`, ...
pub open spec fn every_nth(ss: Seq<NesStateView>, interval: int) -> Seq<NesStateView> {
    Seq::new((ss.len() as int / interval) as nat, |i: int| ss[(i + 1) * interval - 1])
}

/// Offering the states `ss` to an empty buffer that has counted no frames
/// leaves in it every `interval`-th state, only the newest ones that fit its
/// capacity, oldest first (so that `pop_prev` gives them back newest first);
/// the frame count is the number of states offered.
pub proof fn lemma_record_all(r: RewindView, ss: Seq<NesStateView>)
    requires
        r.snapshots.len() == 0,
        r.frame_counter == 0,
        r.interval >= 1,
        ss.len() < usize::MAX,
    ensures
        ({
            let r2 = record_all(r, ss);
            let k = r.interval as int;
            let q = ss.len() as int / k;
            let cap = rewind_capacity(r);
            let lo = if q > cap {
                q - cap
            } else {
                0
            };
            &&& r2.frame_counter == ss.len()
            &&& r2.max_snapshots == r.max_snapshots
            &&& r2.interval == r.interval
            &&& r2.snapshots == every_nth(ss, k).subrange(lo, q)
            &&& r2.snapshots.len() <= cap
        }),
    decreases ss.len(),
{
    let k = r.interval as int;
    let cap = rewind_capacity(r);
    if ss.len() > 0 {
        let ss1 = ss.drop_last();
        lemma_record_all(r, ss1);
        let r1 = record_all(r, ss1);
        let n = ss.len() as int;
        let n1 = n - 1;
        let q1 = n1 / k;
        let q = n / k;
        let lo1 = if q1 > cap {
            q1 - cap
        } else {
            0
        };
        let lo = if q > cap {
            q - cap
        } else {
            0
        };
        let e1 = every_nth(ss1, k);
        let e = every_nth(ss, k);
        lemma_fundamental_div_mod(n1, k);
        let rem1 = n1 % k;
        assert(n1 == q1 * k + rem1) by (nonlinear_arith)
            requires
                n1 == k * q1 + rem1,
        ;
        if rem1 + 1 < k {
            lemma_fundamental_div_mod_converse(n, k, q1, rem1 + 1);
        } else {
            assert(n == (q1 + 1) * k + 0) by (nonlinear_arith)
                requires
                    n1 == q1 * k + rem1,
                    n == n1 + 1,
                    rem1 + 1 == k,
            ;
            lemma_fundamental_div_mod_converse(n, k, q1 + 1, 0);
        }
        assert(q >= q1);
        assert forall|i: int| 0 <= i < q1 implies #[trigger] e1[i] == e[i] by {
            assert(1 <= (i + 1) * k <= q1 * k) by (nonlinear_arith)
                requires
                    0 <= i < q1,
                    k >= 1,
            ;
            let j = (i + 1) * k - 1;
            assert(0 <= j < n1);
            assert(e1[i] == ss1[j]);
            assert(e[i] == ss[j]);
        }
        if rem1 + 1 < k {
            assert(!keeps_next(r1));
            assert(r1.snapshots =~= e.subrange(lo, q));
        } else {
            assert(keeps_next(r1));
            assert(e[q - 1] == ss.last());
            let snaps = record_spec(r1, ss.last()).snapshots;
            if q1 >= cap {
                assert(snaps =~= e.subrange(lo, q));
            } else {
                assert(snaps =~= e.subrange(lo, q));
            }
        }
    } else {
        assert(every_nth(ss, k).subrange(0, 0) =~= Seq::<NesStateView>::empty());
    }
}

/// Recording and taking snapshots keep the capacity and the interval of a
/// buffer.
pub proof fn lemma_rewind_keeps_shape(r: RewindView, s: NesStateView)
    ensures
        record_spec(r, s).max_snapshots == r.max_snapshots,
        record_spec(r, s).interval == r.interval,
        rewind_pop_spec(r).max_snapshots == r.max_snapshots,
        rewind_pop_spec(r).interval == r.interval,
{
}

/// Clearing a buffer made by `RewindManager::new(seconds, interval)`, after
/// any records and pops (which keep its capacity and interval), gives the
/// buffer that `new(seconds, interval)` makes, so that it behaves as a fresh
/// one from then on.
pub proof fn lemma_clear_is_fresh(r: RewindView, seconds: usize, interval: usize)
    requires
        r.max_snapshots == rewind_new_spec(seconds, interval).max_snapshots,
        r.interval == interval,
    ensures
        rewind_clear_spec(r) == rewind_new_spec(seconds, interval),
{
    assert(rewind_clear_spec(r).snapshots =~= rewind_new_spec(seconds, interval).snapshots);
}

} // verus!
