//! iNES cartridges: header parsing, PRG/CHR banking (NROM, MMC1, UxROM and
//! CNROM), nametable mirroring and MMC1 work RAM.
use vstd::prelude::*;
use vstd::arithmetic::div_mod::lemma_fundamental_div_mod;

verus! {

pub struct Cart {
    pub prg: Vec<u8>,
    pub chr: Vec<u8>,
    pub mapper: u16,
    pub prg_banks: u8,
    pub chr_banks: u8,
    pub has_trainer: bool,
    /// 0: one-screen A, 1: one-screen B, 2: vertical, 3: horizontal
    mirror: u8,
    prg_mode: u8,
    prg_bank: usize,
    chr_bank0: u8,
    chr_bank1: u8,
    shift: u8,
    shift_count: u8,
    control: u8,
    prg_ram: [u8; 0x2000],
    prg_ram_disable: bool,
}

/// The banking state of a cartridge, for save states: everything that the
/// running game can change.
#[derive(Clone)]
pub struct CartState {
    pub chr: Vec<u8>,
    pub mirror: u8,
    pub prg_mode: u8,
    pub prg_bank: usize,
    pub chr_bank0: u8,
    pub chr_bank1: u8,
    pub shift: u8,
    pub shift_count: u8,
    pub control: u8,
    pub prg_ram: [u8; 0x2000],
    pub prg_ram_disable: bool,
}

/// Why a file is not a usable iNES image.
#[derive(Debug, PartialEq, Eq, Structural)]
pub enum CartError {
    /// Shorter than a header, or the magic bytes "NES\x1A" are missing.
    NotINes,
    /// The header asks for more PRG/CHR data than the file holds.
    TooShort { len: usize, needed: usize },
}

/// What a cartridge holds, as seen by its contracts.
pub struct CartView {
    pub prg: Seq<u8>,
    pub chr: Seq<u8>,
    pub mapper: u16,
    pub prg_banks: u8,
    pub chr_banks: u8,
    pub has_trainer: bool,
    pub mirror: u8,
    pub prg_mode: u8,
    pub prg_bank: usize,
    pub chr_bank0: u8,
    pub chr_bank1: u8,
    pub shift: u8,
    pub shift_count: u8,
    pub control: u8,
    pub prg_ram: Seq<u8>,
    pub prg_ram_disable: bool,
}

impl View for Cart {
    type V = CartView;

    closed spec fn view(&self) -> CartView {
        CartView {
            prg: self.prg@,
            chr: self.chr@,
            mapper: self.mapper,
            prg_banks: self.prg_banks,
            chr_banks: self.chr_banks,
            has_trainer: self.has_trainer,
            mirror: self.mirror,
            prg_mode: self.prg_mode,
            prg_bank: self.prg_bank,
            chr_bank0: self.chr_bank0,
            chr_bank1: self.chr_bank1,
            shift: self.shift,
            shift_count: self.shift_count,
            control: self.control,
            prg_ram: self.prg_ram@,
            prg_ram_disable: self.prg_ram_disable,
        }
    }
}

/// The banking state of a cartridge, as seen by contracts.
pub struct CartStateView {
    pub chr: Seq<u8>,
    pub mirror: u8,
    pub prg_mode: u8,
    pub prg_bank: usize,
    pub chr_bank0: u8,
    pub chr_bank1: u8,
    pub shift: u8,
    pub shift_count: u8,
    pub control: u8,
    pub prg_ram: Seq<u8>,
    pub prg_ram_disable: bool,
}

impl View for CartState {
    type V = CartStateView;

    open spec fn view(&self) -> CartStateView {
        CartStateView {
            chr: self.chr@,
            mirror: self.mirror,
            prg_mode: self.prg_mode,
            prg_bank: self.prg_bank,
            chr_bank0: self.chr_bank0,
            chr_bank1: self.chr_bank1,
            shift: self.shift,
            shift_count: self.shift_count,
            control: self.control,
            prg_ram: self.prg_ram@,
            prg_ram_disable: self.prg_ram_disable,
        }
    }
}

/// The banking state of cartridge `c`.
pub open spec fn cart_state_of(c: CartView) -> CartStateView {
    CartStateView {
        chr: c.chr,
        mirror: c.mirror,
        prg_mode: c.prg_mode,
        prg_bank: c.prg_bank,
        chr_bank0: c.chr_bank0,
        chr_bank1: c.chr_bank1,
        shift: c.shift,
        shift_count: c.shift_count,
        control: c.control,
        prg_ram: c.prg_ram,
        prg_ram_disable: c.prg_ram_disable,
    }
}

/// Cartridge `c` with the banking state `s`.
pub open spec fn with_cart_state(c: CartView, s: CartStateView) -> CartView {
    CartView {
        chr: s.chr,
        mirror: s.mirror,
        prg_mode: s.prg_mode,
        prg_bank: s.prg_bank,
        chr_bank0: s.chr_bank0,
        chr_bank1: s.chr_bank1,
        shift: s.shift,
        shift_count: s.shift_count,
        control: s.control,
        prg_ram: s.prg_ram,
        prg_ram_disable: s.prg_ram_disable,
        ..c
    }
}

/// A banking state that a well-formed cartridge can hold.
pub open spec fn cart_state_wf(s: CartStateView) -> bool {
    s.shift_count < 5 && s.prg_bank < 16 && s.prg_ram.len() == 0x2000
}

/// Well-formed cartridge state: the MMC1 shift register holds fewer than
/// five bits and the PRG bank register fits in four bits.
pub open spec fn cart_wf(c: CartView) -> bool {
    c.shift_count < 5 && c.prg_bank < 16 && c.prg_ram.len() == 0x2000
}

/// Whether `data` starts with an iNES header.
pub open spec fn ines_header(data: Seq<u8>) -> bool {
    data.len() >= 16 && data[0] == 0x4E && data[1] == 0x45 && data[2] == 0x53 && data[3] == 0x1A
}

/// Offset of PRG data in an iNES image (after the header and the trainer).
pub open spec fn prg_offset(data: Seq<u8>) -> int {
    16 + if data[6] & 0x04 != 0 {
        512int
    } else {
        0
    }
}

/// Bytes an iNES image needs for its header, trainer, PRG and CHR data.
pub open spec fn ines_needed(data: Seq<u8>) -> int {
    prg_offset(data) + data[4] as int * 0x4000 + data[5] as int * 0x2000
}

/// The mapper number from flags 6 and 7.
pub open spec fn ines_mapper(data: Seq<u8>) -> u16 {
    ((data[6] >> 4) as u16) | ((data[7] & 0xF0) as u16)
}

/// The CHR memory of an image: its CHR data, or 8 KiB of RAM when it has
/// none.
pub open spec fn ines_chr(data: Seq<u8>) -> Seq<u8> {
    let start = prg_offset(data) + data[4] as int * 0x4000;
    if data[5] == 0 {
        Seq::new(0x2000, |i: int| 0u8)
    } else {
        data.subrange(start, start + data[5] as int * 0x2000)
    }
}

/// Name of the nametable mirroring.
pub open spec fn mirror_name_spec(mirror: u8) -> &'static str {
    let m = mirror & 3;
    if m == 0 {
        "1A"
    } else if m == 1 {
        "1B"
    } else if m == 2 {
        "V"
    } else {
        "H"
    }
}

/// Which 1 KiB nametable (0 or 1) the nametable offset `nt_offset` uses.
pub open spec fn nt_bank_spec(mirror: u8, nt_offset: u16) -> usize {
    let n = (nt_offset / 0x400) & 3;
    let m = mirror & 3;
    if m == 0 {
        0
    } else if m == 1 {
        1
    } else if m == 2 {
        (n & 1) as usize
    } else {
        ((n >> 1) & 1) as usize
    }
}

/// Offset into CHR memory for PPU address `addr`.
pub open spec fn chr_map_spec(c: CartView, addr: u16) -> int {
    let a = addr as int % 0x2000;
    let len = if c.chr.len() >= 1 {
        c.chr.len() as int
    } else {
        1
    };
    if c.mapper == 3 {
        let banks = if len / 0x2000 >= 1 {
            len / 0x2000
        } else {
            1
        };
        (c.chr_bank0 as int % banks) * 0x2000 + a
    } else if c.mapper != 1 {
        a % len
    } else {
        let banks = if len / 0x1000 >= 1 {
            len / 0x1000
        } else {
            1
        };
        let bank: int = if c.control & 0x10 != 0 {
            if a < 0x1000 {
                c.chr_bank0 as int
            } else {
                c.chr_bank1 as int
            }
        } else {
            (c.chr_bank0 & !1u8) as int + if a >= 0x1000 {
                1int
            } else {
                0
            }
        };
        (bank % banks) * 0x1000 + a % 0x1000
    }
}

/// The byte of CHR memory that the PPU reads at `addr`.
pub open spec fn chr_read_spec(c: CartView, addr: u16) -> u8 {
    let off = chr_map_spec(c, addr);
    if off < c.chr.len() {
        c.chr[off]
    } else {
        0
    }
}

/// The cartridge after the PPU writes `value` to CHR memory at `addr`
/// (only CHR RAM, that is images without CHR data, can be written).
pub open spec fn chr_write_spec(c: CartView, addr: u16, value: u8) -> CartView {
    let off = chr_map_spec(c, addr);
    if c.chr_banks != 0 || off >= c.chr.len() {
        c
    } else {
        CartView { chr: c.chr.update(off, value), ..c }
    }
}

/// The byte the CPU reads from work RAM at `addr` (MMC1 only, when enabled).
pub open spec fn wram_read_spec(c: CartView, addr: u16) -> u8 {
    if c.mapper != 1 || c.prg_ram_disable {
        0
    } else {
        c.prg_ram[addr as int % 0x2000]
    }
}

pub open spec fn wram_write_spec(c: CartView, addr: u16, value: u8) -> CartView {
    if c.mapper != 1 || c.prg_ram_disable {
        c
    } else {
        CartView { prg_ram: c.prg_ram.update(addr as int % 0x2000, value), ..c }
    }
}

/// Number of 16 KiB PRG banks (at least one).
pub open spec fn prg_bank_count(c: CartView) -> int {
    if c.prg.len() / 0x4000 >= 1 {
        (c.prg.len() / 0x4000) as int
    } else {
        1
    }
}

/// The cartridge after the CPU writes `value` to `addr` in 0x8000..=0xFFFF
/// (the MMC1 serial port; other mappers ignore it).
pub open spec fn mmc1_write_spec(c: CartView, addr: u16, value: u8) -> CartView {
    if c.mapper != 1 {
        c
    } else if value & 0x80 != 0 {
        CartView { shift: 0, shift_count: 0, control: c.control | 0x0C, prg_mode: 3, ..c }
    } else {
        let shift = c.shift | ((value & 1) << c.shift_count);
        let count = c.shift_count + 1;
        if count < 5 {
            CartView { shift, shift_count: count as u8, ..c }
        } else {
            let c1 = CartView { shift: 0, shift_count: 0, ..c };
            if 0x8000 <= addr <= 0x9FFF {
                CartView { control: shift, prg_mode: (shift >> 2) & 3, mirror: shift & 3, ..c1 }
            } else if 0xA000 <= addr <= 0xBFFF {
                CartView { chr_bank0: shift, ..c1 }
            } else if 0xC000 <= addr <= 0xDFFF {
                CartView { chr_bank1: shift, ..c1 }
            } else if 0xE000 <= addr {
                CartView {
                    prg_bank: ((shift & 0x0F) as int % prg_bank_count(c)) as usize,
                    prg_ram_disable: shift & 0x10 != 0,
                    ..c1
                }
            } else {
                c1
            }
        }
    }
}

/// The cartridge after the CPU writes `value` to `addr` in 0x8000..=0xFFFF:
/// the MMC1 serial port, the UxROM PRG bank (low four bits) or the CNROM
/// CHR bank (low two bits); NROM ignores it.
pub open spec fn prg_write_spec(c: CartView, addr: u16, value: u8) -> CartView {
    if c.mapper == 1 {
        mmc1_write_spec(c, addr, value)
    } else if c.mapper == 2 {
        CartView { prg_bank: ((value & 0x0F) as int % prg_bank_count(c)) as usize, ..c }
    } else if c.mapper == 3 {
        CartView { chr_bank0: value & 0x03, ..c }
    } else {
        c
    }
}

/// The byte the CPU reads from PRG ROM at `addr` in 0x8000..=0xFFFF. UxROM
/// has its switchable bank at 0x8000 and the last bank at 0xC000; NROM and
/// CNROM map the first bank at 0x8000 and the second (or the first again)
/// at 0xC000.
pub open spec fn prg_read_spec(c: CartView, addr: u16) -> u8 {
    let banks = prg_bank_count(c);
    let last = banks - 1;
    let slot_low = 0x8000 <= addr <= 0xBFFF;
    let bank: int = if c.mapper == 2 {
        if slot_low {
            c.prg_bank as int
        } else {
            last
        }
    } else if c.mapper != 1 {
        if slot_low {
            0
        } else if banks > 1 {
            1
        } else {
            0
        }
    } else if c.prg_mode == 2 {
        if slot_low {
            0
        } else {
            c.prg_bank as int
        }
    } else if c.prg_mode == 3 {
        if slot_low {
            c.prg_bank as int
        } else {
            last
        }
    } else {
        let base = (c.prg_bank & !1usize) as int;
        if slot_low {
            base
        } else {
            base + 1
        }
    };
    let off = bank * 0x4000 + addr as int % 0x4000;
    if off < c.prg.len() {
        c.prg[off]
    } else {
        0xFF
    }
}

fn copy_range(data: &[u8], start: usize, len: usize) -> (r: Vec<u8>)
    requires
        start + len <= data@.len(),
    ensures
        r@ == data@.subrange(start as int, start + len),
{
    let mut out: Vec<u8> = Vec::new();
    let n = data.len();
    let mut i: usize = 0;
    while i < len
        invariant
            0 <= i <= len,
            n == data@.len(),
            start + len <= data@.len(),
            out@ == data@.subrange(start as int, start + i),
        decreases len - i,
    {
        out.push(data[start + i]);
        i = i + 1;
        assert(out@ =~= data@.subrange(start as int, start + i));
    }
    out
}

/// Whether an iNES header marks the image as NES 2.0 (flags 7, bits 2-3 =
/// 0b10); such images are read as iNES 1.0.
pub fn nes2_header(data: &[u8]) -> (r: bool)
    ensures
        r == (data@.len() >= 8 && data@[7] & 0x0C == 0x08),
{
    data.len() >= 8 && data[7] & 0x0C == 0x08
}

impl Cart {
    pub open spec fn wf(&self) -> bool {
        cart_wf(self@)
    }

    /// Parses an iNES image: the header, an optional 512-byte trainer that is
    /// skipped, PRG banks of 16 KiB and CHR banks of 8 KiB (8 KiB of CHR RAM
    /// when there are none). Mirroring is vertical when flag 6 bit 0 is set,
    /// horizontal otherwise; MMC1 starts with PRG mode 3 and control 0x0C.
    pub fn load(data: &[u8]) -> (r: Result<Cart, CartError>)
        ensures
            !ines_header(data@) ==> r == Err::<Cart, CartError>(CartError::NotINes),
            ines_header(data@) && data@.len() < ines_needed(data@) ==> r == Err::<Cart, CartError>(
                CartError::TooShort { len: data@.len() as usize, needed: ines_needed(data@) as usize },
            ),
            ines_header(data@) && data@.len() >= ines_needed(data@) ==> r is Ok && ({
                let c = r->Ok_0@;
                let off = prg_offset(data@);
                &&& r->Ok_0.wf()
                &&& c.prg == data@.subrange(off, off + data@[4] as int * 0x4000)
                &&& c.chr == ines_chr(data@)
                &&& c.mapper == ines_mapper(data@)
                &&& c.prg_banks == data@[4]
                &&& c.chr_banks == data@[5]
                &&& c.has_trainer == (data@[6] & 0x04 != 0)
                &&& c.mirror == (if data@[6] & 0x01 != 0 {
                    2u8
                } else {
                    3u8
                })
                &&& c.prg_mode == 3
                &&& c.prg_bank == 0
                &&& c.chr_bank0 == 0
                &&& c.chr_bank1 == 0
                &&& c.shift == 0
                &&& c.shift_count == 0
                &&& c.control == 0x0C
                &&& c.prg_ram == Seq::new(0x2000, |i: int| 0u8)
                &&& !c.prg_ram_disable
            }),
    {
        if data.len() < 16 || data[0] != 0x4E || data[1] != 0x45 || data[2] != 0x53 || data[3]
            != 0x1A {
            return Err(CartError::NotINes);
        }
        let prg_banks = data[4];
        let chr_banks = data[5];
        let flags6 = data[6];
        let flags7 = data[7];
        let mapper = ((flags6 >> 4) as u16) | ((flags7 & 0xF0) as u16);
        let vertical_mirror = flags6 & 0x01 != 0;
        let has_trainer = flags6 & 0x04 != 0;
        let mut off = 16usize;
        if has_trainer {
            off = off + 512;
        }
        let prg_len = prg_banks as usize * 0x4000;
        let chr_len = chr_banks as usize * 0x2000;
        if (data.len() as u64) < (off as u64) + (prg_len as u64) + (chr_len as u64) {
            return Err(
                CartError::TooShort { len: data.len(), needed: off + prg_len + chr_len },
            );
        }
        let prg = copy_range(data, off, prg_len);
        let chr = if chr_len == 0 {
            let v = vec![0u8; 0x2000];
            assert(v@ =~= Seq::new(0x2000, |i: int| 0u8));
            v
        } else {
            copy_range(data, off + prg_len, chr_len)
        };
        let c = Cart {
            prg,
            chr,
            mapper,
            prg_banks,
            chr_banks,
            has_trainer,
            mirror: if vertical_mirror {
                2
            } else {
                3
            },
            prg_mode: 3,
            prg_bank: 0,
            chr_bank0: 0,
            chr_bank1: 0,
            shift: 0,
            shift_count: 0,
            control: 0x0C,
            prg_ram: [0; 0x2000],
            prg_ram_disable: false,
        };
        assert(c@.prg_ram =~= Seq::new(0x2000, |i: int| 0u8));
        Ok(c)
    }

    /// The mapper number of the image.
    pub fn mapper_id(&self) -> (r: u16)
        ensures
            r == self@.mapper,
    {
        self.mapper
    }

    pub fn mirror_name(&self) -> (r: &'static str)
        ensures
            r == mirror_name_spec(self@.mirror),
    {
        let m = self.mirror & 3;
        if m == 0 {
            "1A"
        } else if m == 1 {
            "1B"
        } else if m == 2 {
            "V"
        } else {
            "H"
        }
    }

    pub fn nt_bank(&self, nt_offset: u16) -> (r: usize)
        ensures
            r == nt_bank_spec(self@.mirror, nt_offset),
            r <= 1,
    {
        let n = (nt_offset / 0x400) & 3;
        let m = self.mirror & 3;
        let r = if m == 0 {
            0
        } else if m == 1 {
            1
        } else if m == 2 {
            (n & 1) as usize
        } else {
            ((n >> 1) & 1) as usize
        };
        assert(n & 1 <= 1 && (n >> 1) & 1 <= 1) by (bit_vector);
        r
    }

    fn chr_map(&self, addr: u16) -> (r: usize)
        ensures
            r == chr_map_spec(self@, addr),
    {
        let addr = (addr % 0x2000) as usize;
        let len = if self.chr.len() >= 1 {
            self.chr.len()
        } else {
            1
        };
        if self.mapper == 3 {
            let banks8 = if len / 0x2000 >= 1 {
                len / 0x2000
            } else {
                1
            };
            let b = self.chr_bank0 as usize % banks8;
            assert(b <= self.chr_bank0) by (nonlinear_arith)
                requires
                    b == self.chr_bank0 as usize % banks8,
                    banks8 >= 1,
            ;
            return b * 0x2000 + addr;
        }
        if self.mapper != 1 {
            return addr % len;
        }
        let banks = if len / 0x1000 >= 1 {
            len / 0x1000
        } else {
            1
        };
        let chr_4k = self.control & 0x10 != 0;
        let cb0 = self.chr_bank0;
        assert((cb0 & !1u8) <= 0xFE) by (bit_vector);
        let bank: u8 = if chr_4k {
            if addr < 0x1000 {
                self.chr_bank0
            } else {
                self.chr_bank1
            }
        } else {
            (self.chr_bank0 & !1) + if addr >= 0x1000 {
                1
            } else {
                0
            }
        };
        let b = bank as usize % banks;
        assert(b <= bank) by (nonlinear_arith)
            requires
                b == bank as usize % banks,
                banks >= 1,
        ;
        b * 0x1000 + addr % 0x1000
    }

    pub fn chr_read(&self, addr: u16) -> (r: u8)
        ensures
            r == chr_read_spec(self@, addr),
    {
        let off = self.chr_map(addr);
        if off < self.chr.len() {
            self.chr[off]
        } else {
            0
        }
    }

    pub fn chr_write(&mut self, addr: u16, value: u8)
        ensures
            final(self)@ == chr_write_spec(old(self)@, addr, value),
    {
        if self.chr_banks != 0 {
            return;
        }
        let off = self.chr_map(addr);
        if off < self.chr.len() {
            self.chr.set(off, value);
        }
    }

    pub fn wram_read(&self, addr: u16) -> (r: u8)
        requires
            self.wf(),
        ensures
            r == wram_read_spec(self@, addr),
    {
        if self.mapper != 1 || self.prg_ram_disable {
            return 0;
        }
        self.prg_ram[(addr % 0x2000) as usize]
    }

    pub fn wram_write(&mut self, addr: u16, value: u8)
        requires
            old(self).wf(),
        ensures
            final(self)@ == wram_write_spec(old(self)@, addr, value),
            final(self).wf(),
    {
        if self.mapper != 1 || self.prg_ram_disable {
            return;
        }
        self.prg_ram[(addr % 0x2000) as usize] = value;
    }

    /// A write to the MMC1 serial port: bit 7 resets the shift register,
    /// otherwise bit 0 is shifted in and every fifth write loads the register
    /// selected by `addr` (control, CHR bank 0, CHR bank 1 or PRG bank).
    pub fn mmc1_write(&mut self, addr: u16, value: u8)
        requires
            old(self).wf(),
        ensures
            final(self)@ == mmc1_write_spec(old(self)@, addr, value),
            final(self).wf(),
    {
        if self.mapper != 1 {
            return;
        }
        if value & 0x80 != 0 {
            self.shift = 0;
            self.shift_count = 0;
            self.control = self.control | 0x0C;
            self.prg_mode = 3;
            return;
        }
        self.shift = self.shift | ((value & 1) << self.shift_count);
        self.shift_count = self.shift_count + 1;
        if self.shift_count < 5 {
            return;
        }
        let data = self.shift;
        self.shift = 0;
        self.shift_count = 0;
        if 0x8000 <= addr && addr <= 0x9FFF {
            self.control = data;
            self.prg_mode = (data >> 2) & 3;
            self.mirror = data & 3;
        } else if 0xA000 <= addr && addr <= 0xBFFF {
            self.chr_bank0 = data;
        } else if 0xC000 <= addr && addr <= 0xDFFF {
            self.chr_bank1 = data;
        } else if 0xE000 <= addr {
            let banks = if self.prg.len() / 0x4000 >= 1 {
                self.prg.len() / 0x4000
            } else {
                1
            };
            self.prg_bank = ((data & 0x0F) as usize) % banks;
            assert((data & 0x0F) < 16) by (bit_vector);
            assert(self.prg_bank < 16) by (nonlinear_arith)
                requires
                    self.prg_bank == ((data & 0x0F) as usize) % banks,
                    (data & 0x0F) < 16,
                    banks >= 1,
            ;
            self.prg_ram_disable = data & 0x10 != 0;
        }
    }

    /// A CPU write to 0x8000..=0xFFFF: the bank registers of the mapper.
    pub fn prg_write(&mut self, addr: u16, value: u8)
        requires
            old(self).wf(),
        ensures
            final(self)@ == prg_write_spec(old(self)@, addr, value),
            final(self).wf(),
    {
        if self.mapper == 1 {
            self.mmc1_write(addr, value);
        } else if self.mapper == 2 {
            let banks = if self.prg.len() / 0x4000 >= 1 {
                self.prg.len() / 0x4000
            } else {
                1
            };
            let sel = value & 0x0F;
            assert(sel < 16) by (bit_vector)
                requires
                    sel == value & 0x0F,
            ;
            self.prg_bank = (sel as usize) % banks;
            assert(self.prg_bank < 16) by (nonlinear_arith)
                requires
                    self.prg_bank == (sel as usize) % banks,
                    sel < 16,
                    banks >= 1,
            ;
        } else if self.mapper == 3 {
            self.chr_bank0 = value & 0x03;
        }
    }

    pub fn prg_read(&self, addr: u16) -> (r: u8)
        requires
            self.wf(),
        ensures
            r == prg_read_spec(self@, addr),
    {
        let banks = if self.prg.len() / 0x4000 >= 1 {
            self.prg.len() / 0x4000
        } else {
            1
        };
        let last = banks - 1;
        let slot_low = 0x8000 <= addr && addr <= 0xBFFF;
        let pb = self.prg_bank;
        assert((pb & !1usize) <= pb) by (bit_vector);
        let bank: usize = if self.mapper == 2 {
            if slot_low {
                self.prg_bank
            } else {
                last
            }
        } else if self.mapper != 1 {
            if slot_low {
                0
            } else if banks > 1 {
                1
            } else {
                0
            }
        } else if self.prg_mode == 2 {
            if slot_low {
                0
            } else {
                self.prg_bank
            }
        } else if self.prg_mode == 3 {
            if slot_low {
                self.prg_bank
            } else {
                last
            }
        } else {
            let base = self.prg_bank & !1;
            if slot_low {
                base
            } else {
                base + 1
            }
        };
        let off: u128 = (bank as u128) * 0x4000 + ((addr % 0x4000) as u128);
        if off < self.prg.len() as u128 {
            self.prg[off as usize]
        } else {
            0xFF
        }
    }

    /// The banking state, for a save state.
    pub fn capture_state(&self) -> (r: CartState)
        ensures
            r@ == cart_state_of(self@),
    {
        let chr = copy_range(self.chr.as_slice(), 0, self.chr.len());
        assert(chr@ =~= self@.chr);
        CartState {
            chr,
            mirror: self.mirror,
            prg_mode: self.prg_mode,
            prg_bank: self.prg_bank,
            chr_bank0: self.chr_bank0,
            chr_bank1: self.chr_bank1,
            shift: self.shift,
            shift_count: self.shift_count,
            control: self.control,
            prg_ram: self.prg_ram,
            prg_ram_disable: self.prg_ram_disable,
        }
    }

    /// Restores a banking state captured from this cartridge.
    pub fn load_state(&mut self, state: &CartState)
        requires
            cart_state_wf(state@),
        ensures
            final(self).wf(),
            final(self)@ == with_cart_state(old(self)@, state@),
    {
        self.chr = copy_range(state.chr.as_slice(), 0, state.chr.len());
        self.mirror = state.mirror;
        self.prg_mode = state.prg_mode;
        self.prg_bank = state.prg_bank;
        self.chr_bank0 = state.chr_bank0;
        self.chr_bank1 = state.chr_bank1;
        self.shift = state.shift;
        self.shift_count = state.shift_count;
        self.control = state.control;
        self.prg_ram = state.prg_ram;
        self.prg_ram_disable = state.prg_ram_disable;
        assert(self.chr@ =~= state.chr@);
    }
}


// ---------------------------------------------------------------------------
// Laws
// ---------------------------------------------------------------------------
/// With MMC1 work RAM enabled, a byte written at 0x6000..=0x7FFF reads back
/// at the same address and every 8 KiB mirror of it.
pub proof fn lemma_wram_roundtrip(c: CartView, a: u16, b: u16, v: u8)
    requires
        cart_wf(c),
        c.mapper == 1,
        !c.prg_ram_disable,
        a as int % 0x2000 == b as int % 0x2000,
    ensures
        wram_read_spec(wram_write_spec(c, a, v), b) == v,
{
}

/// On an image without CHR data (8 KiB of CHR RAM), a byte the picture unit
/// writes to the pattern tables reads back.
pub proof fn lemma_chr_ram_roundtrip(c: CartView, a: u16, v: u8)
    requires
        c.chr_banks == 0,
        0 <= chr_map_spec(c, a) < c.chr.len(),
    ensures
        chr_read_spec(chr_write_spec(c, a, v), a) == v,
{
}

/// The value that five MMC1 serial writes carry: bit 0 of each write, the
/// first write in bit 0.
pub open spec fn mmc1_serial_value(v0: u8, v1: u8, v2: u8, v3: u8, v4: u8) -> u8 {
    ((v0 % 2) + (v1 % 2) * 2 + (v2 % 2) * 4 + (v3 % 2) * 8 + (v4 % 2) * 16) as u8
}

/// MMC1 after the register at `addr` is loaded with `data`.
pub open spec fn mmc1_load(c: CartView, addr: u16, data: u8) -> CartView {
    let c1 = CartView { shift: 0, shift_count: 0, ..c };
    if 0x8000 <= addr <= 0x9FFF {
        CartView { control: data, prg_mode: (data >> 2) & 3, mirror: data & 3, ..c1 }
    } else if 0xA000 <= addr <= 0xBFFF {
        CartView { chr_bank0: data, ..c1 }
    } else if 0xC000 <= addr <= 0xDFFF {
        CartView { chr_bank1: data, ..c1 }
    } else if 0xE000 <= addr {
        CartView {
            prg_bank: ((data & 0x0F) as int % prg_bank_count(c)) as usize,
            prg_ram_disable: data & 0x10 != 0,
            ..c1
        }
    } else {
        c1
    }
}

/// Five MMC1 writes with bit 7 clear, from an empty shift register, load
/// the register that the fifth write's address selects with the bits they
/// carried, and leave the shift register empty.
pub proof fn lemma_mmc1_five_writes(
    c: CartView,
    a0: u16,
    a1: u16,
    a2: u16,
    a3: u16,
    a4: u16,
    v0: u8,
    v1: u8,
    v2: u8,
    v3: u8,
    v4: u8,
)
    requires
        c.mapper == 1,
        c.shift == 0,
        c.shift_count == 0,
        v0 < 0x80 && v1 < 0x80 && v2 < 0x80 && v3 < 0x80 && v4 < 0x80,
    ensures
        mmc1_write_spec(
            mmc1_write_spec(
                mmc1_write_spec(mmc1_write_spec(mmc1_write_spec(c, a0, v0), a1, v1), a2, v2),
                a3,
                v3,
            ),
            a4,
            v4,
        ) == mmc1_load(c, a4, mmc1_serial_value(v0, v1, v2, v3, v4)),
{
    let s1 = 0u8 | ((v0 & 1) << 0u8);
    let s2 = s1 | ((v1 & 1) << 1u8);
    let s3 = s2 | ((v2 & 1) << 2u8);
    let s4 = s3 | ((v3 & 1) << 3u8);
    let s5 = s4 | ((v4 & 1) << 4u8);
    assert(s5 == mmc1_serial_value(v0, v1, v2, v3, v4) && v0 & 0x80 == 0 && v1 & 0x80 == 0 && v2
        & 0x80 == 0 && v3 & 0x80 == 0 && v4 & 0x80 == 0) by (bit_vector)
        requires
            s1 == 0u8 | ((v0 & 1) << 0u8),
            s2 == s1 | ((v1 & 1) << 1u8),
            s3 == s2 | ((v2 & 1) << 2u8),
            s4 == s3 | ((v3 & 1) << 3u8),
            s5 == s4 | ((v4 & 1) << 4u8),
            v0 < 0x80 && v1 < 0x80 && v2 < 0x80 && v3 < 0x80 && v4 < 0x80,
    ;
}

/// Whether every PRG, CHR and work-RAM read gives the same byte on `c1` as
/// on `c2`.
pub open spec fn same_reads(c1: CartView, c2: CartView) -> bool {
    forall|a: u16|
        #![trigger prg_read_spec(c1, a)]
        #![trigger chr_read_spec(c1, a)]
        #![trigger wram_read_spec(c1, a)]
        prg_read_spec(c1, a) == prg_read_spec(c2, a) && chr_read_spec(c1, a) == chr_read_spec(c2, a)
            && wram_read_spec(c1, a) == wram_read_spec(c2, a)
}

/// On an MMC1 cartridge in PRG mode 3 with an empty shift register (as
/// `Cart::load` leaves it) and at least one PRG bank, writing the bits of
/// `d` one by one to 0xE000, lowest first: the first four writes change no
/// read; after the fifth, 0x8000..=0xBFFF shows PRG bank `d % 16` (modulo
/// the number of banks), 0xC000..=0xFFFF the last bank, and work RAM reads
/// 0 when bit 4 of `d` is set and its contents otherwise.
pub proof fn lemma_mmc1_prg_bank_select(c: CartView, d: u8)
    requires
        cart_wf(c),
        c.mapper == 1,
        c.shift == 0,
        c.shift_count == 0,
        c.prg_mode == 3,
        c.prg.len() >= 0x4000,
        d < 32,
    ensures
        ({
            let c1 = prg_write_spec(c, 0xE000, d & 1);
            let c2 = prg_write_spec(c1, 0xE000, (d >> 1u8) & 1);
            let c3 = prg_write_spec(c2, 0xE000, (d >> 2u8) & 1);
            let c4 = prg_write_spec(c3, 0xE000, (d >> 3u8) & 1);
            let c5 = prg_write_spec(c4, 0xE000, (d >> 4u8) & 1);
            let banks = c.prg.len() as int / 0x4000;
            &&& same_reads(c1, c) && same_reads(c2, c) && same_reads(c3, c) && same_reads(c4, c)
            &&& forall|k: u16|
                k < 0x4000 ==> #[trigger] prg_read_spec(c5, (0x8000 + k) as u16) == c.prg[(d as int
                    % 16 % banks) * 0x4000 + k]
            &&& forall|k: u16|
                k < 0x4000 ==> #[trigger] prg_read_spec(c5, (0xC000 + k) as u16) == c.prg[(banks - 1)
                    * 0x4000 + k]
            &&& d >= 16 ==> forall|a: u16| #[trigger] wram_read_spec(c5, a) == 0
            &&& d < 16 ==> forall|a: u16| #[trigger] wram_read_spec(c5, a) == c.prg_ram[a as int % 0x2000]
        }),
{
    let v0 = d & 1;
    let v1 = (d >> 1u8) & 1;
    let v2 = (d >> 2u8) & 1;
    let v3 = (d >> 3u8) & 1;
    let v4 = (d >> 4u8) & 1;
    assert(v0 <= 1 && v1 <= 1 && v2 <= 1 && v3 <= 1 && v4 <= 1 && v0 & 0x80 == 0 && v1 & 0x80 == 0
        && v2 & 0x80 == 0 && v3 & 0x80 == 0) by (bit_vector)
        requires
            v0 == d & 1,
            v1 == (d >> 1u8) & 1,
            v2 == (d >> 2u8) & 1,
            v3 == (d >> 3u8) & 1,
            v4 == (d >> 4u8) & 1,
    ;
    assert(mmc1_serial_value(v0, v1, v2, v3, v4) == d && d & 0x0F == d % 16 && (d & 0x10 != 0) == (d
        >= 16)) by (bit_vector)
        requires
            v0 == d & 1,
            v1 == (d >> 1u8) & 1,
            v2 == (d >> 2u8) & 1,
            v3 == (d >> 3u8) & 1,
            v4 == (d >> 4u8) & 1,
            d < 32,
    ;
    lemma_mmc1_five_writes(c, 0xE000, 0xE000, 0xE000, 0xE000, 0xE000, v0, v1, v2, v3, v4);
    let banks = c.prg.len() as int / 0x4000;
    lemma_fundamental_div_mod(c.prg.len() as int, 0x4000);
    assert(banks >= 1 && banks * 0x4000 <= c.prg.len());
    assert(prg_bank_count(c) == banks);
    let bank = d as int % 16 % banks;
    assert(0 <= bank < banks && bank <= d as int % 16) by (nonlinear_arith)
        requires
            bank == d as int % 16 % banks,
            banks >= 1,
    ;
    let c1 = prg_write_spec(c, 0xE000, v0);
    let c2 = prg_write_spec(c1, 0xE000, v1);
    let c3 = prg_write_spec(c2, 0xE000, v2);
    let c4 = prg_write_spec(c3, 0xE000, v3);
    let c5 = prg_write_spec(c4, 0xE000, v4);
    assert(c1 == mmc1_write_spec(c, 0xE000, v0));
    assert(c2 == mmc1_write_spec(c1, 0xE000, v1));
    assert(c3 == mmc1_write_spec(c2, 0xE000, v2));
    assert(c4 == mmc1_write_spec(c3, 0xE000, v3));
    assert(c5 == mmc1_write_spec(c4, 0xE000, v4));
    assert(c5 == mmc1_load(c, 0xE000, d));
    assert((d & 0x0F) as int == d as int % 16);
    assert(c5.prg_bank == bank && c5.prg_mode == 3 && c5.prg == c.prg);
    assert forall|k: u16| k < 0x4000 implies #[trigger] prg_read_spec(c5, (0x8000 + k) as u16)
        == c.prg[bank * 0x4000 + k] by {
        assert(((0x8000 + k) as u16) as int % 0x4000 == k);
        assert(bank * 0x4000 + k < banks * 0x4000);
    }
    assert forall|k: u16| k < 0x4000 implies #[trigger] prg_read_spec(c5, (0xC000 + k) as u16)
        == c.prg[(banks - 1) * 0x4000 + k] by {
        assert(((0xC000 + k) as u16) as int % 0x4000 == k);
    }
}

/// On a UxROM cartridge with at least one PRG bank, a write of `v` to
/// 0x8000..=0xFFFF shows PRG bank `v % 16` (modulo the number of banks) at
/// 0x8000..=0xBFFF, while 0xC000..=0xFFFF keeps showing the last bank.
pub proof fn lemma_uxrom_bank_select(c: CartView, addr: u16, v: u8)
    requires
        cart_wf(c),
        c.mapper == 2,
        c.prg.len() >= 0x4000,
    ensures
        ({
            let c1 = prg_write_spec(c, addr, v);
            let banks = c.prg.len() as int / 0x4000;
            &&& forall|k: u16|
                k < 0x4000 ==> #[trigger] prg_read_spec(c1, (0x8000 + k) as u16) == c.prg[(v as int
                    % 16 % banks) * 0x4000 + k]
            &&& forall|k: u16|
                k < 0x4000 ==> #[trigger] prg_read_spec(c1, (0xC000 + k) as u16) == c.prg[(banks - 1)
                    * 0x4000 + k]
        }),
{
    let banks = c.prg.len() as int / 0x4000;
    lemma_fundamental_div_mod(c.prg.len() as int, 0x4000);
    assert(prg_bank_count(c) == banks);
    let bank = v as int % 16 % banks;
    assert(0 <= bank < banks && bank <= v as int % 16) by (nonlinear_arith)
        requires
            bank == v as int % 16 % banks,
            banks >= 1,
    ;
    assert((v & 0x0F) == v % 16) by (bit_vector);
    let c1 = prg_write_spec(c, addr, v);
    assert(c1.prg_bank == bank && c1.mapper == 2 && c1.prg == c.prg);
    assert forall|k: u16| k < 0x4000 implies #[trigger] prg_read_spec(c1, (0x8000 + k) as u16)
        == c.prg[bank * 0x4000 + k] by {
        assert(((0x8000 + k) as u16) as int % 0x4000 == k);
    }
    assert forall|k: u16| k < 0x4000 implies #[trigger] prg_read_spec(c1, (0xC000 + k) as u16)
        == c.prg[(banks - 1) * 0x4000 + k] by {
        assert(((0xC000 + k) as u16) as int % 0x4000 == k);
    }
}

/// On a CNROM cartridge with at least 8 KiB of CHR memory, a write of `v`
/// to 0x8000..=0xFFFF shows 8 KiB CHR bank `v % 4` (modulo the number of
/// banks) to the picture unit.
pub proof fn lemma_cnrom_bank_select(c: CartView, addr: u16, v: u8)
    requires
        c.mapper == 3,
        c.chr.len() >= 0x2000,
    ensures
        ({
            let c1 = prg_write_spec(c, addr, v);
            let banks = c.chr.len() as int / 0x2000;
            forall|p: u16|
                p < 0x2000 ==> #[trigger] chr_read_spec(c1, p) == c.chr[(v as int % 4 % banks) * 0x2000
                    + p]
        }),
{
    let banks = c.chr.len() as int / 0x2000;
    lemma_fundamental_div_mod(c.chr.len() as int, 0x2000);
    let bank = v as int % 4 % banks;
    assert(0 <= bank < banks) by (nonlinear_arith)
        requires
            bank == v as int % 4 % banks,
            banks >= 1,
    ;
    assert((v & 0x03) == v % 4) by (bit_vector);
    let c1 = prg_write_spec(c, addr, v);
    assert(c1.chr_bank0 as int == v as int % 4 && c1.chr == c.chr && c1.mapper == 3);
    assert forall|p: u16| p < 0x2000 implies #[trigger] chr_read_spec(c1, p) == c.chr[bank * 0x2000
        + p] by {
        assert(chr_map_spec(c1, p) == bank * 0x2000 + p);
    }
}

/// What the CPU sees at `0x8000 + j` on MMC1, by PRG mode: modes 2 and 3
/// split the window into two 16 KiB halves (mode 2: the first bank fixed
/// below and the selected one above; mode 3: the selected bank below and
/// the last one fixed above); the other modes show 32 KiB in one piece,
/// the bank pair that the selected bank number with bit 0 dropped names.
/// Past the end of the PRG data the bus reads 0xFF.
pub proof fn lemma_mmc1_prg_window(c: CartView, j: u16)
    requires
        cart_wf(c),
        c.mapper == 1,
        j < 0x8000,
    ensures
        ({
            let off: int = if c.prg_mode == 2 {
                if j < 0x4000 {
                    j as int
                } else {
                    c.prg_bank as int * 0x4000 + (j - 0x4000)
                }
            } else if c.prg_mode == 3 {
                if j < 0x4000 {
                    c.prg_bank as int * 0x4000 + j
                } else {
                    (prg_bank_count(c) - 1) * 0x4000 + (j - 0x4000)
                }
            } else {
                (c.prg_bank as int / 2) * 0x8000 + j
            };
            prg_read_spec(c, (0x8000 + j) as u16) == if off < c.prg.len() {
                c.prg[off]
            } else {
                0xFF
            }
        }),
{
    let pb = c.prg_bank;
    assert((pb & !1usize) as int == (pb as int / 2) * 2) by (bit_vector)
        requires
            pb < 16,
    ;
    assert(((0x8000 + j) as u16) as int % 0x4000 == j as int % 0x4000);
}

/// Nametable mirroring: with vertical mirroring (2) the left and right
/// nametables are distinct and the lower two repeat the upper two; with
/// horizontal mirroring (3) the top and bottom ones are distinct and each
/// row repeats; one-screen mirroring (0, 1) maps all four to one table.
pub proof fn lemma_nt_mirroring(mirror: u8, off: u16)
    ensures
        mirror & 3 == 2 ==> nt_bank_spec(mirror, off) == off / 0x400 % 2,
        mirror & 3 == 3 ==> nt_bank_spec(mirror, off) == off / 0x800 % 2,
        mirror & 3 == 0 ==> nt_bank_spec(mirror, off) == 0,
        mirror & 3 == 1 ==> nt_bank_spec(mirror, off) == 1,
{
    let n = (off / 0x400) & 3;
    assert(n & 1 == off / 0x400 % 2 && (n >> 1) & 1 == off / 0x800 % 2) by (bit_vector)
        requires
            n == (off / 0x400) & 3,
    ;
}

} // verus!
