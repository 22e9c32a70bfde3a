//! The NES picture unit (2C02): registers, VRAM addressing, scanline
//! rendering of background and sprites, and sprite-0 hit.
use vstd::prelude::*;
use crate::nes::cart::{Cart, CartView, chr_read_spec, chr_write_spec, nt_bank_spec};
use crate::pixel::{color_id, color_id_spec};

verus! {

/// Approximate 2C02 palette as 0xAARRGGBB.
const NES_PALETTE: [u32; 64] = [
    0xFF545454,
    0xFF001E74,
    0xFF081090,
    0xFF300088,
    0xFF440064,
    0xFF5C0030,
    0xFF540400,
    0xFF3C1800,
    0xFF202A00,
    0xFF083A00,
    0xFF004000,
    0xFF003C00,
    0xFF00323C,
    0xFF000000,
    0xFF000000,
    0xFF000000,
    0xFF989698,
    0xFF084CC4,
    0xFF3032EC,
    0xFF5C1EE4,
    0xFF8814B0,
    0xFFA01464,
    0xFF982220,
    0xFF783C00,
    0xFF545A00,
    0xFF287200,
    0xFF087C00,
    0xFF007628,
    0xFF006678,
    0xFF000000,
    0xFF000000,
    0xFF000000,
    0xFFECEEEC,
    0xFF4C9AEC,
    0xFF787CEC,
    0xFFB062EC,
    0xFFE454EC,
    0xFFEC58B4,
    0xFFEC6A64,
    0xFFD48820,
    0xFFA0AA00,
    0xFF74C400,
    0xFF4CD020,
    0xFF38CC6C,
    0xFF38B4CC,
    0xFF3C3C3C,
    0xFF000000,
    0xFF000000,
    0xFFECEEEC,
    0xFFA8CCEC,
    0xFFBCBCEC,
    0xFFD4B2EC,
    0xFFECAEEC,
    0xFFECAED4,
    0xFFECB4B0,
    0xFFE4C490,
    0xFFCCD278,
    0xFFB4DE78,
    0xFFA8E290,
    0xFF98E2B4,
    0xFFA0D6E0,
    0xFFA0A2A0,
    0xFF000000,
    0xFF000000,
];

/// The 64 colours of the master palette.
pub open spec fn nes_palette() -> Seq<u32> {
    seq![
        0xFF545454u32, 0xFF001E74, 0xFF081090, 0xFF300088, 0xFF440064, 0xFF5C0030, 0xFF540400,
        0xFF3C1800, 0xFF202A00, 0xFF083A00, 0xFF004000, 0xFF003C00, 0xFF00323C, 0xFF000000,
        0xFF000000, 0xFF000000, 0xFF989698, 0xFF084CC4, 0xFF3032EC, 0xFF5C1EE4, 0xFF8814B0,
        0xFFA01464, 0xFF982220, 0xFF783C00, 0xFF545A00, 0xFF287200, 0xFF087C00, 0xFF007628,
        0xFF006678, 0xFF000000, 0xFF000000, 0xFF000000, 0xFFECEEEC, 0xFF4C9AEC, 0xFF787CEC,
        0xFFB062EC, 0xFFE454EC, 0xFFEC58B4, 0xFFEC6A64, 0xFFD48820, 0xFFA0AA00, 0xFF74C400,
        0xFF4CD020, 0xFF38CC6C, 0xFF38B4CC, 0xFF3C3C3C, 0xFF000000, 0xFF000000, 0xFFECEEEC,
        0xFFA8CCEC, 0xFFBCBCEC, 0xFFD4B2EC, 0xFFECAEEC, 0xFFECAED4, 0xFFECB4B0, 0xFFE4C490,
        0xFFCCD278, 0xFFB4DE78, 0xFFA8E290, 0xFF98E2B4, 0xFFA0D6E0, 0xFFA0A2A0, 0xFF000000,
        0xFF000000,
    ]
}

#[derive(Clone, Copy)]
pub struct Ppu {
    pub ctrl: u8,
    pub mask: u8,
    pub status: u8,
    pub vram: [u8; 0x800],
    pub palette: [u8; 0x20],
    pub oam: [u8; 256],
    pub oam_addr: u8,
    pub t: u16,
    pub v: u16,
    pub x: u8,
    pub w: bool,
    pub ly: u16,
    read_buffer: u8,
    bg_cid: [u8; 256],
}

/// What the picture unit holds, as seen by its contracts.
pub struct PpuView {
    pub ctrl: u8,
    pub mask: u8,
    pub status: u8,
    pub vram: Seq<u8>,
    pub palette: Seq<u8>,
    pub oam: Seq<u8>,
    pub oam_addr: u8,
    pub t: u16,
    pub v: u16,
    pub x: u8,
    pub w: bool,
    pub ly: u16,
    /// The delayed PPUDATA read buffer.
    pub read_buffer: u8,
    /// Background colour index of each pixel of the current scanline.
    pub bg_cid: Seq<u8>,
}

impl View for Ppu {
    type V = PpuView;

    closed spec fn view(&self) -> PpuView {
        PpuView {
            ctrl: self.ctrl,
            mask: self.mask,
            status: self.status,
            vram: self.vram@,
            palette: self.palette@,
            oam: self.oam@,
            oam_addr: self.oam_addr,
            t: self.t,
            v: self.v,
            x: self.x,
            w: self.w,
            ly: self.ly,
            read_buffer: self.read_buffer,
            bg_cid: self.bg_cid@,
        }
    }
}

/// Sizes of the memories of the picture unit; fine X scroll has three bits.
pub open spec fn ppu_wf(p: PpuView) -> bool {
    &&& p.vram.len() == 0x800
    &&& p.palette.len() == 0x20
    &&& p.oam.len() == 256
    &&& p.bg_cid.len() == 256
    &&& p.x < 8
}

/// The picture unit at power-up: everything zero except OAM, which reads
/// 0xFF.
pub open spec fn ppu_power_up() -> PpuView {
    PpuView {
        ctrl: 0,
        mask: 0,
        status: 0,
        vram: Seq::new(0x800, |i: int| 0u8),
        palette: Seq::new(0x20, |i: int| 0u8),
        oam: Seq::new(256, |i: int| 0xFFu8),
        oam_addr: 0,
        t: 0,
        v: 0,
        x: 0,
        w: false,
        ly: 0,
        read_buffer: 0,
        bg_cid: Seq::new(256, |i: int| 0u8),
    }
}

// ---------------------------------------------------------------------------
// Loopy VRAM address arithmetic
// ---------------------------------------------------------------------------
/// Copies the horizontal bits (coarse X, nametable X) of `t` into `v`.
pub open spec fn copy_x_spec(v: u16, t: u16) -> u16 {
    (v & !0x041Fu16) | (t & 0x041F)
}

/// Moves `v` one pixel row down: fine Y, then coarse Y with the vertical
/// nametable switch after row 29 (rows 30 and 31 wrap without switching).
pub open spec fn inc_y_spec(v: u16) -> u16 {
    if v & 0x7000 != 0x7000 {
        (v + 0x1000) as u16
    } else {
        let v1 = v & !0x7000u16;
        let y = (v1 & 0x03E0) >> 5;
        if y == 29 {
            ((v1 ^ 0x0800) & !0x03E0u16) | (0u16 << 5)
        } else if y == 31 {
            (v1 & !0x03E0u16) | (0u16 << 5)
        } else {
            (v1 & !0x03E0u16) | ((y + 1) as u16) << 5
        }
    }
}

/// Moves `v` one tile right, switching the horizontal nametable after
/// column 31.
pub open spec fn inc_x_spec(v: u16) -> u16 {
    if v & 0x001F == 0x001F {
        (v & !0x001Fu16) ^ 0x0400
    } else {
        (v + 1) as u16
    }
}

/// `k` tile steps to the right.
pub open spec fn inc_x_iter(v: u16, k: nat) -> u16
    decreases k,
{
    if k == 0 {
        v
    } else {
        inc_x_spec(inc_x_iter(v, (k - 1) as nat))
    }
}

// ---------------------------------------------------------------------------
// PPU memory
// ---------------------------------------------------------------------------
/// Index of a palette entry for `addr` in 0x3F00..=0x3FFF; the backdrop
/// entries of the sprite palettes mirror those of the background palettes.
pub open spec fn palette_index(addr: u16) -> int {
    let p = (addr as int - 0x3F00) % 32;
    if p == 0x10 || p == 0x14 || p == 0x18 || p == 0x1C {
        p - 0x10
    } else {
        p
    }
}

/// Index into the 2 KiB nametable RAM for `addr` in 0x2000..0x3F00.
pub open spec fn vram_index(mirror: u8, addr: u16) -> int {
    let nt = ((addr as int - 0x2000) % 0x1000) as u16;
    nt_bank_spec(mirror, nt) as int * 0x400 + nt as int % 0x400
}

/// The byte the picture unit reads at `addr` (pattern tables from the
/// cartridge, then nametables, then palette).
pub open spec fn mem_read_spec(p: PpuView, c: CartView, addr: u16) -> u8 {
    let a = (addr as int % 0x4000) as u16;
    if a < 0x2000 {
        chr_read_spec(c, a)
    } else if a >= 0x3F00 {
        p.palette[palette_index(a)]
    } else {
        p.vram[vram_index(c.mirror, a)]
    }
}

/// The picture unit and the cartridge after the picture unit writes `value`
/// at `addr`; palette entries keep six bits.
pub open spec fn mem_write_spec(p: PpuView, c: CartView, addr: u16, value: u8) -> (PpuView, CartView) {
    let a = (addr as int % 0x4000) as u16;
    if a < 0x2000 {
        (p, chr_write_spec(c, a, value))
    } else if a >= 0x3F00 {
        (PpuView { palette: p.palette.update(palette_index(a), value % 64), ..p }, c)
    } else {
        (PpuView { vram: p.vram.update(vram_index(c.mirror, a), value), ..p }, c)
    }
}

/// The screen colour of palette entry `pal_index`; greyscale (mask bit 0)
/// keeps only the brightness bits of the hue.
pub open spec fn rgb_spec(p: PpuView, pal_index: u8) -> u32 {
    let hue = p.palette[pal_index as int % 32] % 64;
    let hue2: int = if p.mask & 0x01 != 0 {
        (hue / 16) * 16
    } else {
        hue as int
    };
    nes_palette()[hue2 as int]
}

/// VRAM address increment selected by PPUCTRL bit 2.
pub open spec fn vram_step(ctrl: u8) -> int {
    if ctrl & 0x04 != 0 {
        32
    } else {
        1
    }
}

/// The register read of `reg` (mirrored every 8 bytes): the value and the
/// new state. PPUSTATUS clears VBlank and the write toggle; PPUDATA reads
/// through the delay buffer except for the palette.
pub open spec fn read_reg_spec(p: PpuView, c: CartView, reg: u16) -> (PpuView, u8) {
    let r = reg % 8;
    if r == 2 {
        (PpuView { status: p.status & !0x80u8, w: false, ..p }, p.status)
    } else if r == 4 {
        (p, p.oam[p.oam_addr as int])
    } else if r == 7 {
        let addr = p.v;
        let p1 = PpuView { v: ((p.v as int + vram_step(p.ctrl)) % 0x8000) as u16, ..p };
        let raw = mem_read_spec(p, c, addr);
        if addr as int % 0x4000 >= 0x3F00 {
            (
                PpuView {
                    read_buffer: mem_read_spec(p, c, ((addr as int - 0x1000) % 0x10000) as u16),
                    ..p1
                },
                raw,
            )
        } else {
            (PpuView { read_buffer: raw, ..p1 }, p.read_buffer)
        }
    } else {
        (p, 0)
    }
}

/// The register write of `value` to `reg` (mirrored every 8 bytes).
pub open spec fn write_reg_spec(p: PpuView, c: CartView, reg: u16, value: u8) -> (PpuView, CartView) {
    let r = reg % 8;
    if r == 0 {
        (PpuView { ctrl: value, t: (p.t & !0x0C00u16) | ((value as u16 & 0x03) << 10u16), ..p }, c)
    } else if r == 1 {
        (PpuView { mask: value, ..p }, c)
    } else if r == 3 {
        (PpuView { oam_addr: value, ..p }, c)
    } else if r == 4 {
        (
            PpuView {
                oam: p.oam.update(p.oam_addr as int, value),
                oam_addr: ((p.oam_addr as int + 1) % 256) as u8,
                ..p
            },
            c,
        )
    } else if r == 5 {
        if !p.w {
            (PpuView { x: value % 8, t: (p.t & !0x001Fu16) | ((value as u16) >> 3u16), w: true, ..p }, c)
        } else {
            (
                PpuView {
                    t: (p.t & !0x73E0u16) | ((value as u16 & 0x07) << 12u16) | ((value as u16 & 0xF8)
                        << 2u16),
                    w: false,
                    ..p
                },
                c,
            )
        }
    } else if r == 6 {
        if !p.w {
            (PpuView { t: (p.t & 0x00FF) | ((value as u16 & 0x3F) << 8u16), w: true, ..p }, c)
        } else {
            let t = (p.t & 0xFF00) | value as u16;
            (PpuView { t, v: t, w: false, ..p }, c)
        }
    } else if r == 7 {
        let (p1, c1) = mem_write_spec(p, c, p.v, value);
        (PpuView { v: ((p.v as int + vram_step(p.ctrl)) % 0x8000) as u16, ..p1 }, c1)
    } else {
        (p, c)
    }
}

// ---------------------------------------------------------------------------
// Rendering
// ---------------------------------------------------------------------------
/// Height of sprites: 8 pixels, or 16 with PPUCTRL bit 5.
pub open spec fn sprite_height(ctrl: u8) -> int {
    if ctrl & 0x20 != 0 {
        16
    } else {
        8
    }
}

/// Pattern table of the background (PPUCTRL bit 4).
pub open spec fn bg_pattern_base(ctrl: u8) -> u16 {
    if ctrl & 0x10 != 0 {
        0x1000
    } else {
        0
    }
}

/// For the background tile that `v` points at: the two bit planes of its
/// fine-Y row, and the two-bit palette chosen by its attribute byte.
pub open spec fn bg_tile_spec(p: PpuView, c: CartView, v: u16) -> (u8, u8, u8) {
    let fine_y = ((v >> 12u16) & 7) as int;
    let tile = mem_read_spec(p, c, 0x2000u16 | (v & 0x0FFF)) as int;
    let a = bg_pattern_base(p.ctrl) as int + tile * 16 + fine_y;
    let attr = mem_read_spec(
        p,
        c,
        0x23C0u16 | (v & 0x0C00) | ((v >> 4u16) & 0x38) | ((v >> 2u16) & 0x07),
    );
    let shift = ((v >> 4u16) & 4) | (v & 2);
    (mem_read_spec(p, c, a as u16), mem_read_spec(p, c, (a + 8) as u16), (attr >> shift) & 3)
}

/// The background colour index (0 is transparent) under screen column `x`
/// of the current line: `v` is moved right by the whole tiles in
/// `fine_x + x`, and the rest selects the pixel in the tile.
pub open spec fn bg_cid_spec(p: PpuView, c: CartView, x: int) -> u8 {
    let q = p.x as int + x;
    let t = bg_tile_spec(p, c, inc_x_iter(p.v, (q / 8) as nat));
    color_id_spec(t.0, t.1, (7 - q % 8) as u8)
}

/// The background palette under screen column `x` of the current line.
pub open spec fn bg_pal_spec(p: PpuView, c: CartView, x: int) -> u8 {
    let q = p.x as int + x;
    bg_tile_spec(p, c, inc_x_iter(p.v, (q / 8) as nat)).2
}

/// Whether the background shows at column `x`: PPUMASK bit 3, and bit 1
/// for the leftmost eight pixels.
pub open spec fn bg_shown(mask: u8, x: int) -> bool {
    mask & 0x08 != 0 && (mask & 0x02 != 0 || x >= 8)
}

/// Background colour index recorded for column `x` of a drawn line.
pub open spec fn line_cid_at(p: PpuView, c: CartView, x: int) -> u8 {
    if bg_shown(p.mask, x) {
        bg_cid_spec(p, c, x)
    } else {
        0
    }
}

/// Screen colour of column `x` of a drawn line: the backdrop where the
/// background is hidden or transparent.
pub open spec fn line_color_at(p: PpuView, c: CartView, x: int) -> u32 {
    if bg_shown(p.mask, x) && bg_cid_spec(p, c, x) != 0 {
        rgb_spec(p, (bg_pal_spec(p, c, x) << 2u8) | bg_cid_spec(p, c, x))
    } else {
        rgb_spec(p, 0)
    }
}

/// Background colour indices of the 256 columns of a drawn line.
pub open spec fn line_cids(p: PpuView, c: CartView) -> Seq<u8> {
    Seq::new(256, |x: int| line_cid_at(p, c, x))
}

/// Screen colours of the 256 columns of a drawn line.
pub open spec fn line_colors(p: PpuView, c: CartView) -> Seq<u32> {
    Seq::new(256, |x: int| line_color_at(p, c, x))
}

/// `buf` with `s` written over it from index `at`.
pub open spec fn splice(buf: Seq<u32>, at: int, s: Seq<u32>) -> Seq<u32> {
    Seq::new(
        buf.len(),
        |i: int|
            if at <= i < at + s.len() {
                s[i - at]
            } else {
                buf[i]
            },
    )
}

/// The two bit planes of row `row` (0..height) of a sprite with tile
/// `tile` and attributes `attr`, flipped vertically by attribute bit 7.
/// 8x16 sprites take their pattern table from tile bit 0, 8x8 sprites from
/// PPUCTRL bit 3.
pub open spec fn sprite_planes(p: PpuView, c: CartView, tile: u8, attr: u8, row: int) -> (u8, u8) {
    let h = sprite_height(p.ctrl);
    let ry = if attr & 0x80 != 0 {
        h - 1 - row
    } else {
        row
    };
    let tall = p.ctrl & 0x20 != 0;
    let tid: int = if tall {
        (tile & 0xFE) as int + if ry >= 8 {
            1int
        } else {
            0
        }
    } else {
        tile as int
    };
    let base: int = if tall {
        if tile & 1 != 0 {
            0x1000
        } else {
            0
        }
    } else if p.ctrl & 0x08 != 0 {
        0x1000
    } else {
        0
    };
    let a = base + tid * 16 + ry % 8;
    (mem_read_spec(p, c, a as u16), mem_read_spec(p, c, (a + 8) as u16))
}

/// The colour index of pixel (`row`, `col`) of a sprite, flipped
/// horizontally by attribute bit 6.
pub open spec fn sprite_cid(p: PpuView, c: CartView, tile: u8, attr: u8, row: int, col: int) -> u8 {
    let t = sprite_planes(p, c, tile, attr, row);
    color_id_spec(
        t.0,
        t.1,
        (if attr & 0x40 != 0 {
            col
        } else {
            7 - col
        }) as u8,
    )
}

/// Whether column `col` of sprite 0 hits the background on the current
/// line: both opaque, not in column 255, not in the left clip.
pub open spec fn sprite0_hit_at(p: PpuView, c: CartView, col: int) -> bool {
    let sy = p.oam[0] as int + 1;
    let px = p.oam[3] as int + col;
    let clip = p.mask & 0x06 != 0x06;
    &&& 0 <= px < 255
    &&& !(clip && px < 8)
    &&& sprite_cid(p, c, p.oam[1], p.oam[2], p.ly as int - sy, col) != 0
    &&& bg_cid_spec(p, c, px) != 0
}

/// Whether sprite 0 hits on the current line (checked only while the flag
/// is clear and both layers are on).
pub open spec fn sprite0_hit(p: PpuView, c: CartView) -> bool {
    let sy = p.oam[0] as int + 1;
    &&& p.status & 0x40 == 0
    &&& p.mask & 0x18 == 0x18
    &&& sy <= p.ly < sy + sprite_height(p.ctrl)
    &&& exists|col: int| 0 <= col < 8 && #[trigger] sprite0_hit_at(p, c, col)
}

/// The state at the start of a visible line: with rendering on, the
/// horizontal bits of `t` go to `v`, and a sprite-0 hit sets status bit 6.
pub open spec fn begin_line_spec(p: PpuView, c: CartView) -> PpuView {
    if p.mask & 0x18 == 0 {
        p
    } else {
        let p1 = PpuView { v: copy_x_spec(p.v, p.t), ..p };
        if sprite0_hit(p1, c) {
            PpuView { status: p1.status | 0x40, ..p1 }
        } else {
            p1
        }
    }
}

/// The state at the end of a visible line: with rendering on, `v` moves
/// one row down.
pub open spec fn end_line_spec(p: PpuView) -> PpuView {
    if p.mask & 0x18 != 0 {
        PpuView { v: inc_y_spec(p.v), ..p }
    } else {
        p
    }
}

/// The pre-render line: VBlank and sprite-0 hit are cleared, and with
/// rendering on, `v` is reloaded from `t`.
pub open spec fn pre_render_spec(p: PpuView) -> PpuView {
    PpuView {
        status: p.status & !0xC0u8,
        v: if p.mask & 0x18 != 0 {
            p.t
        } else {
            p.v
        },
        ..p
    }
}

/// Whether sprite `i` shows at index `j` of the picture on the current
/// line: an opaque pixel of it lies there, inside the screen, outside the
/// left clip (PPUMASK bit 2 clear), and not behind an opaque background
/// when attribute bit 5 puts it behind.
pub open spec fn sprite_shows(p: PpuView, c: CartView, i: int, j: int) -> bool {
    let o = i * 4;
    let row = p.ly as int - (p.oam[o] as int + 1);
    let attr = p.oam[o + 2];
    let px = j - p.ly as int * 256;
    let col = px - p.oam[o + 3] as int;
    &&& 0 <= px < 256
    &&& 0 <= row < sprite_height(p.ctrl)
    &&& 0 <= col < 8
    &&& sprite_cid(p, c, p.oam[o + 1], attr, row, col) != 0
    &&& !(p.mask & 0x04 == 0 && px < 8)
    &&& !(attr & 0x20 != 0 && p.bg_cid[px] != 0)
}

/// The colour of sprite `i` at index `j` of the picture: its colour index in
/// sprite palette `4 + attr & 3`.
pub open spec fn sprite_pixel(p: PpuView, c: CartView, i: int, j: int) -> u32 {
    let o = i * 4;
    let row = p.ly as int - (p.oam[o] as int + 1);
    let attr = p.oam[o + 2];
    let col = j - p.ly as int * 256 - p.oam[o + 3] as int;
    let pal = (4 + (attr & 3)) as u8;
    rgb_spec(p, (pal << 2u8) | sprite_cid(p, c, p.oam[o + 1], attr, row, col))
}

/// Whether a picture of `len` pixels holds every pixel that a sprite shows
/// on the current line.
pub open spec fn sprites_fit(p: PpuView, c: CartView, len: int) -> bool {
    forall|i: int, j: int| 0 <= i < 64 && #[trigger] sprite_shows(p, c, i, j) ==> j < len
}

/// `buf` after sprite `i` is drawn on the current line.
pub open spec fn sprite_layer(p: PpuView, c: CartView, i: int, buf: Seq<u32>) -> Seq<u32> {
    Seq::new(
        buf.len(),
        |j: int|
            if sprite_shows(p, c, i, j) {
                sprite_pixel(p, c, i, j)
            } else {
                buf[j]
            },
    )
}

/// `buf` after the last `k` sprites are drawn, from sprite 63 down, so that
/// a lower-numbered sprite ends on top.
pub open spec fn sprites_from_back(p: PpuView, c: CartView, k: int, buf: Seq<u32>) -> Seq<u32>
    decreases k,
{
    if k <= 0 {
        buf
    } else {
        sprite_layer(p, c, 64 - k, sprites_from_back(p, c, k - 1, buf))
    }
}

/// `buf` after the sprites of the current line are drawn (PPUMASK bit 4,
/// visible lines only).
pub open spec fn draw_sprites_spec(p: PpuView, c: CartView, buf: Seq<u32>) -> Seq<u32> {
    if p.mask & 0x10 == 0 || p.ly >= 240 {
        buf
    } else {
        sprites_from_back(p, c, 64, buf)
    }
}

proof fn lemma_render_bits()
    by (bit_vector)
    ensures
        forall|v: u16| #[trigger] ((v >> 12u16) & 7) <= 7,
        forall|v: u16| #[trigger] (((v >> 4u16) & 4) | (v & 2)) <= 6,
        forall|a: u8| #[trigger] (a & 3) <= 3,
        forall|a: u8| #[trigger] (a & 0xFE) <= 254,
{
}

pub fn copy_x(v: u16, t: u16) -> (r: u16)
    ensures
        r == copy_x_spec(v, t),
{
    (v & !0x041F) | (t & 0x041F)
}

pub fn inc_y(v: u16) -> (r: u16)
    ensures
        r == inc_y_spec(v),
{
    if v & 0x7000 != 0x7000 {
        assert(v & 0x7000 != 0x7000 ==> v <= 0xEFFF) by (bit_vector);
        return v + 0x1000;
    }
    let v1 = v & !0x7000;
    let mut y = (v1 & 0x03E0) >> 5;
    let mut v2 = v1;
    if y == 29 {
        y = 0;
        v2 = v1 ^ 0x0800;
    } else if y == 31 {
        y = 0;
    } else {
        assert((v1 & 0x03E0) >> 5 <= 31) by (bit_vector);
        y = y + 1;
    }
    (v2 & !0x03E0) | (y << 5)
}

pub fn inc_x(v: u16) -> (r: u16)
    ensures
        r == inc_x_spec(v),
{
    if v & 0x001F == 0x001F {
        (v & !0x001F) ^ 0x0400
    } else {
        assert(v & 0x001F != 0x001F ==> v < 0xFFFF) by (bit_vector);
        v + 1
    }
}

impl Ppu {
    pub open spec fn wf(&self) -> bool {
        ppu_wf(self@)
    }

    /// Power-up state: everything zero except OAM, which reads 0xFF.
    pub fn new() -> (r: Self)
        ensures
            r.wf(),
            r@ == ppu_power_up(),
    {
        let r = Self {
            ctrl: 0,
            mask: 0,
            status: 0,
            vram: [0; 0x800],
            palette: [0; 0x20],
            oam: [0xFF; 256],
            oam_addr: 0,
            t: 0,
            v: 0,
            x: 0,
            w: false,
            ly: 0,
            read_buffer: 0,
            bg_cid: [0; 256],
        };
        assert(r@.vram =~= Seq::new(0x800, |i: int| 0u8));
        assert(r@.palette =~= Seq::new(0x20, |i: int| 0u8));
        assert(r@.oam =~= Seq::new(256, |i: int| 0xFFu8));
        assert(r@.bg_cid =~= Seq::new(256, |i: int| 0u8));
        r
    }

    /// Where a PPU address at or above 0x2000 lands: the palette (`true`)
    /// or the nametable RAM (`false`), and the index there.
    fn map(&self, addr: u16, cart: &Cart) -> (r: (bool, usize))
        requires
            0x2000 <= addr as int % 0x4000,
        ensures
            ({
                let a = (addr as int % 0x4000) as u16;
                if a >= 0x3F00 {
                    r == (true, palette_index(a) as usize)
                } else {
                    r == (false, vram_index(cart@.mirror, a) as usize)
                }
            }),
            r.0 ==> r.1 < 0x20,
            !r.0 ==> r.1 < 0x800,
    {
        let addr = addr % 0x4000;
        if addr >= 0x3F00 {
            let mut p = ((addr - 0x3F00) % 32) as usize;
            if p == 0x10 || p == 0x14 || p == 0x18 || p == 0x1C {
                p = p - 0x10;
            }
            return (true, p);
        }
        let nt = (addr - 0x2000) % 0x1000;
        let table = cart.nt_bank(nt);
        (false, table * 0x400 + (nt % 0x400) as usize)
    }

    fn mem_read(&self, addr: u16, cart: &Cart) -> (r: u8)
        requires
            self.wf(),
        ensures
            r == mem_read_spec(self@, cart@, addr),
    {
        let addr = addr % 0x4000;
        if addr < 0x2000 {
            cart.chr_read(addr)
        } else {
            let (pal, i) = self.map(addr, cart);
            if pal {
                self.palette[i]
            } else {
                self.vram[i]
            }
        }
    }

    fn mem_write(&mut self, addr: u16, value: u8, cart: &mut Cart)
        requires
            old(self).wf(),
        ensures
            (final(self)@, final(cart)@) == mem_write_spec(old(self)@, old(cart)@, addr, value),
            final(self).wf(),
            final(cart).wf() == old(cart).wf(),
    {
        let addr = addr % 0x4000;
        if addr < 0x2000 {
            cart.chr_write(addr, value);
            return;
        }
        let (pal, i) = self.map(addr, cart);
        if pal {
            self.palette[i] = value % 64;
        } else {
            self.vram[i] = value;
        }
    }

    fn rgb(&self, pal_index: u8) -> (r: u32)
        requires
            self.wf(),
        ensures
            r == rgb_spec(self@, pal_index),
    {
        let mut hue = self.palette[(pal_index % 32) as usize] % 64;
        if self.mask & 0x01 != 0 {
            hue = (hue / 16) * 16;
        }
        let pal = NES_PALETTE;
        assert(pal@ =~= nes_palette());
        pal[hue as usize]
    }

    /// Reads register `reg` (0x2000..=0x3FFF, mirrored every 8 bytes).
    pub fn read_reg(&mut self, reg: u16, cart: &Cart) -> (r: u8)
        requires
            old(self).wf(),
        ensures
            final(self).wf(),
            (final(self)@, r) == read_reg_spec(old(self)@, cart@, reg),
    {
        let r = reg % 8;
        if r == 2 {
            let v = self.status;
            self.status = self.status & !0x80;
            self.w = false;
            v
        } else if r == 4 {
            self.oam[self.oam_addr as usize]
        } else if r == 7 {
            let addr = self.v;
            let step: u16 = if self.ctrl & 0x04 != 0 {
                32
            } else {
                1
            };
            self.v = ((self.v as u32 + step as u32) % 0x8000) as u16;
            let raw = self.mem_read(addr, cart);
            if addr % 0x4000 >= 0x3F00 {
                self.read_buffer = self.mem_read(addr.wrapping_sub(0x1000), cart);
                raw
            } else {
                let old = self.read_buffer;
                self.read_buffer = raw;
                old
            }
        } else {
            0
        }
    }

    /// Writes `value` to register `reg` (0x2000..=0x3FFF, mirrored every 8
    /// bytes).
    pub fn write_reg(&mut self, reg: u16, value: u8, cart: &mut Cart)
        requires
            old(self).wf(),
        ensures
            final(self).wf(),
            (final(self)@, final(cart)@) == write_reg_spec(old(self)@, old(cart)@, reg, value),
            final(cart).wf() == old(cart).wf(),
    {
        let r = reg % 8;
        if r == 0 {
            self.ctrl = value;
            self.t = (self.t & !0x0C00) | ((value as u16 & 0x03) << 10);
        } else if r == 1 {
            self.mask = value;
        } else if r == 3 {
            self.oam_addr = value;
        } else if r == 4 {
            self.oam[self.oam_addr as usize] = value;
            self.oam_addr = self.oam_addr.wrapping_add(1);
        } else if r == 5 {
            if !self.w {
                self.x = value % 8;
                self.t = (self.t & !0x001F) | ((value as u16) >> 3);
            } else {
                self.t = (self.t & !0x73E0) | ((value as u16 & 0x07) << 12) | ((value as u16 & 0xF8)
                    << 2);
            }
            self.w = !self.w;
        } else if r == 6 {
            if !self.w {
                self.t = (self.t & 0x00FF) | ((value as u16 & 0x3F) << 8);
            } else {
                self.t = (self.t & 0xFF00) | value as u16;
                self.v = self.t;
            }
            self.w = !self.w;
        } else if r == 7 {
            let step: u16 = if self.ctrl & 0x04 != 0 {
                32
            } else {
                1
            };
            let v = self.v;
            self.mem_write(v, value, cart);
            self.v = ((v as u32 + step as u32) % 0x8000) as u16;
        }
    }

    /// Writes byte `i` of sprite memory.
    pub fn write_oam(&mut self, i: u8, value: u8)
        requires
            old(self).wf(),
        ensures
            final(self).wf(),
            final(self)@ == (PpuView { oam: old(self)@.oam.update(i as int, value), ..old(self)@ }),
    {
        self.oam[i as usize] = value;
    }

    /// Sets the OAM address register (0x2003).
    pub fn set_oam_addr(&mut self, value: u8)
        ensures
            final(self)@ == (PpuView { oam_addr: value, ..old(self)@ }),
    {
        self.oam_addr = value;
    }

    /// Sets the current scanline.
    pub fn set_line(&mut self, ly: u16)
        ensures
            final(self)@ == (PpuView { ly, ..old(self)@ }),
    {
        self.ly = ly;
    }

    /// Sets the VBlank flag.
    pub fn enter_vblank(&mut self)
        ensures
            final(self)@ == (PpuView { status: old(self)@.status | 0x80, ..old(self)@ }),
    {
        self.status = self.status | 0x80;
    }

    /// Whether an NMI is raised at the start of VBlank (PPUCTRL bit 7).
    pub fn nmi_enabled(&self) -> (r: bool)
        ensures
            r == (self@.ctrl & 0x80 != 0),
    {
        self.ctrl & 0x80 != 0
    }

    fn rendering(&self) -> (r: bool)
        ensures
            r == (self@.mask & 0x18 != 0),
    {
        self.mask & 0x18 != 0
    }

    /// The pre-render line: VBlank and sprite-0 hit are cleared, and with
    /// rendering on, `v` is reloaded from `t`.
    pub fn pre_render(&mut self)
        ensures
            final(self)@ == pre_render_spec(old(self)@),
    {
        self.status = self.status & !0xC0;
        if self.rendering() {
            self.v = self.t;
        }
    }

    /// End of a visible line: with rendering on, `v` moves one row down.
    pub fn end_visible_line(&mut self)
        ensures
            final(self)@ == end_line_spec(old(self)@),
    {
        if self.rendering() {
            self.v = inc_y(self.v);
        }
    }
    /// The bit planes and palette of the background tile that `v` points at.
    fn bg_tile(&self, cart: &Cart, v: u16) -> (r: (u8, u8, u8))
        requires
            self.wf(),
        ensures
            r == bg_tile_spec(self@, cart@, v),
    {
        proof {
            lemma_render_bits();
        }
        let fine_y = (v >> 12) & 7;
        let tile = self.mem_read(0x2000 | (v & 0x0FFF), cart) as u16;
        let pat: u16 = if self.ctrl & 0x10 != 0 {
            0x1000
        } else {
            0
        };
        let lo = self.mem_read(pat + tile * 16 + fine_y, cart);
        let hi = self.mem_read(pat + tile * 16 + fine_y + 8, cart);
        let attr = self.mem_read(0x23C0 | (v & 0x0C00) | ((v >> 4) & 0x38) | ((v >> 2) & 0x07), cart);
        let shift = ((v >> 4) & 4) | (v & 2);
        (lo, hi, (attr >> shift) & 3)
    }

    /// The bit planes of row `row` of a sprite.
    fn sprite_row(&self, cart: &Cart, tile: u8, attr: u8, row: i32) -> (r: (u8, u8))
        requires
            self.wf(),
            0 <= row < sprite_height(self@.ctrl),
        ensures
            r == sprite_planes(self@, cart@, tile, attr, row as int),
    {
        proof {
            lemma_render_bits();
        }
        let tall = self.ctrl & 0x20 != 0;
        let h: i32 = if tall {
            16
        } else {
            8
        };
        let ry = if attr & 0x80 != 0 {
            h - 1 - row
        } else {
            row
        };
        let (tid, base): (u16, u16) = if tall {
            let t = tile & 0xFE;
            let extra: u8 = if ry >= 8 {
                1
            } else {
                0
            };
            ((t + extra) as u16, if tile & 1 != 0 {
                0x1000
            } else {
                0
            })
        } else {
            let pat8: u16 = if self.ctrl & 0x08 != 0 {
                0x1000
            } else {
                0
            };
            (tile as u16, pat8)
        };
        let fy = (ry as u16) % 8;
        let lo = self.mem_read(base + tid * 16 + fy, cart);
        let hi = self.mem_read(base + tid * 16 + fy + 8, cart);
        (lo, hi)
    }

    /// Whether pixel (`row`, `col`) of sprite 0 is opaque.
    fn sprite0_opaque(&self, cart: &Cart, col: i32, row: i32) -> (r: bool)
        requires
            self.wf(),
            0 <= col < 8,
            0 <= row < sprite_height(self@.ctrl),
        ensures
            r == (sprite_cid(self@, cart@, self@.oam[1], self@.oam[2], row as int, col as int) != 0),
    {
        let tile = self.oam[1];
        let attr = self.oam[2];
        let (lo, hi) = self.sprite_row(cart, tile, attr, row);
        let bit = if attr & 0x40 != 0 {
            col
        } else {
            7 - col
        };
        color_id(lo, hi, bit as u8) != 0
    }

    /// Whether the background is opaque under screen column `x`.
    fn bg_opaque(&self, cart: &Cart, x: u16) -> (r: bool)
        requires
            self.wf(),
            x < 256,
        ensures
            r == (bg_cid_spec(self@, cart@, x as int) != 0),
    {
        let mut v = self.v;
        let pixel = self.x as u16 + x;
        let n = pixel / 8;
        let mut i: u16 = 0;
        while i < n
            invariant
                0 <= i <= n,
                v == inc_x_iter(self@.v, i as nat),
            decreases n - i,
        {
            v = inc_x(v);
            i = i + 1;
        }
        let (lo, hi, _) = self.bg_tile(cart, v);
        color_id(lo, hi, (7 - pixel % 8) as u8) != 0
    }

    /// Sets the sprite-0 hit flag when sprite 0 and the background are both
    /// opaque at some pixel of the current line.
    fn eval_sprite0(&mut self, cart: &Cart)
        requires
            old(self).wf(),
        ensures
            final(self).wf(),
            final(self)@ == (if sprite0_hit(old(self)@, cart@) {
                PpuView { status: old(self)@.status | 0x40, ..old(self)@ }
            } else {
                old(self)@
            }),
    {
        if self.status & 0x40 != 0 || self.mask & 0x18 != 0x18 {
            return;
        }
        let sy = self.oam[0] as i32 + 1;
        let tall = self.ctrl & 0x20 != 0;
        let h: i32 = if tall {
            16
        } else {
            8
        };
        let ly = self.ly as i32;
        if ly < sy || ly >= sy + h {
            return;
        }
        let sx = self.oam[3] as i32;
        let clip = self.mask & 0x06 != 0x06;
        let mut col: i32 = 0;
        while col < 8
            invariant
                0 <= col <= 8,
                self.wf(),
                self@ == old(self)@,
                self@.status & 0x40 == 0,
                self@.mask & 0x18 == 0x18,
                sx == self@.oam[3] as int,
                sy == self@.oam[0] as int + 1,
                ly == self@.ly as int,
                sy <= ly < sy + sprite_height(self@.ctrl),
                clip == (self@.mask & 0x06 != 0x06),
                forall|j: int| 0 <= j < col ==> !#[trigger] sprite0_hit_at(self@, cart@, j),
            decreases 8 - col,
        {
            let px = sx + col;
            if 0 <= px && px < 255 && !(clip && px < 8) {
                if self.sprite0_opaque(cart, col, ly - sy) && self.bg_opaque(cart, px as u16) {
                    assert(sprite0_hit_at(self@, cart@, col as int));
                    self.status = self.status | 0x40;
                    return;
                }
            }
            col = col + 1;
        }
    }

    /// Start of a visible line: with rendering on, the horizontal position
    /// comes from `t` and sprite 0 is tested against the background.
    pub fn begin_visible_line(&mut self, cart: &Cart)
        requires
            old(self).wf(),
        ensures
            final(self).wf(),
            final(self)@ == begin_line_spec(old(self)@, cart@),
    {
        if !self.rendering() {
            return;
        }
        self.v = copy_x(self.v, self.t);
        self.eval_sprite0(cart);
    }
    /// Colour and colour index of column `x` of the current line, given the
    /// background tile under it.
    fn line_pixel(&self, cart: &Cart, x: u16, tile: (u8, u8, u8), backdrop: u32) -> (r: (u32, u8))
        requires
            self.wf(),
            x < 256,
            tile == bg_tile_spec(self@, cart@, inc_x_iter(self@.v, ((self@.x + x) / 8) as nat)),
            backdrop == rgb_spec(self@, 0),
        ensures
            r == (line_color_at(self@, cart@, x as int), line_cid_at(self@, cart@, x as int)),
    {
        let q = self.x as u16 + x;
        let (lo, hi, pal) = tile;
        let cid = color_id(lo, hi, (7 - q % 8) as u8);
        if self.mask & 0x08 != 0 && (self.mask & 0x02 != 0 || x >= 8) {
            if cid == 0 {
                (backdrop, cid)
            } else {
                proof {
                    lemma_render_bits();
                }
                (self.rgb((pal << 2) | cid), cid)
            }
        } else {
            (backdrop, 0)
        }
    }

    /// Draws the background of the current line (`ly` below 240) into row
    /// `ly` of the 256-pixel-wide `buffer` and records its colour indices
    /// for sprite priority; the backdrop colour fills hidden and transparent
    /// pixels. Lines from 240 on draw nothing.
    pub fn draw_scanline(&mut self, cart: &Cart, buffer: &mut [u32])
        requires
            old(self).wf(),
            old(self)@.ly < 240 ==> old(buffer)@.len() >= (old(self)@.ly + 1) * 256,
        ensures
            final(self).wf(),
            old(self)@.ly >= 240 ==> final(self)@ == old(self)@ && final(buffer)@ == old(buffer)@,
            old(self)@.ly < 240 ==> final(self)@ == (PpuView {
                bg_cid: line_cids(old(self)@, cart@),
                ..old(self)@
            }) && final(buffer)@ == splice(
                old(buffer)@,
                old(self)@.ly * 256,
                line_colors(old(self)@, cart@),
            ),
    {
        let ly = self.ly;
        if ly >= 240 {
            return;
        }
        let row = ly as usize * 256;
        let backdrop = self.rgb(0);
        let mut cids = [0u8; 256];
        let mut v = self.v;
        let fine_x = self.x as u16;
        let mut tile = self.bg_tile(cart, v);
        let ghost p = self@;
        let ghost c = cart@;
        let ghost buf0 = buffer@;
        let mut out: u16 = 0;
        while out < 256
            invariant
                0 <= out <= 256,
                self.wf(),
                self@ == p,
                cart@ == c,
                row == p.ly * 256,
                p.ly < 240,
                fine_x == p.x,
                backdrop == rgb_spec(p, 0),
                buffer@.len() == buf0.len(),
                buf0.len() >= row + 256,
                cids@.len() == 256,
                v == inc_x_iter(
                    p.v,
                    (if out == 0 {
                        0
                    } else {
                        (fine_x + out - 1) / 8
                    }) as nat,
                ),
                tile == bg_tile_spec(p, c, v),
                forall|i: int| 0 <= i < out ==> #[trigger] cids@[i] == line_cid_at(p, c, i),
                forall|j: int|
                    0 <= j < buffer@.len() ==> #[trigger] buffer@[j] == (if row <= j < row + out {
                        line_color_at(p, c, j - row)
                    } else {
                        buf0[j]
                    }),
            decreases 256 - out,
        {
            let q = fine_x + out;
            if out > 0 && q % 8 == 0 {
                v = inc_x(v);
                tile = self.bg_tile(cart, v);
            }
            assert(v == inc_x_iter(p.v, (q / 8) as nat)) by {
                if out > 0 && q % 8 == 0 {
                    assert(q / 8 == (q - 1) / 8 + 1);
                } else if out > 0 {
                    assert(q / 8 == (q - 1) / 8);
                }
            }
            let (color, cid) = self.line_pixel(cart, out, tile, backdrop);
            buffer[row + out as usize] = color;
            cids[out as usize] = cid;
            out = out + 1;
        }
        self.bg_cid = cids;
        proof {
            assert(self@.bg_cid =~= line_cids(p, c));
            assert(buffer@ =~= splice(buf0, row as int, line_colors(p, c)));
        }
    }

    /// Draws sprite `i` on the current line.
    fn draw_sprite(&self, cart: &Cart, buffer: &mut [u32], i: usize)
        requires
            self.wf(),
            i < 64,
            self@.ly < 240,
            forall|j: int| #[trigger] sprite_shows(self@, cart@, i as int, j) ==> j < old(buffer)@.len(),
        ensures
            final(buffer)@ == sprite_layer(self@, cart@, i as int, old(buffer)@),
    {
        proof {
            lemma_render_bits();
        }
        let ghost target = sprite_layer(self@, cart@, i as int, buffer@);
        let ghost buf0 = buffer@;
        let ly = self.ly as i32;
        let tall = self.ctrl & 0x20 != 0;
        let clip = self.mask & 0x04 == 0;
        let o = i * 4;
        let sy = self.oam[o] as i32 + 1;
        let tile = self.oam[o + 1];
        let attr = self.oam[o + 2];
        let pal = 4 + (attr & 0x03);
        let sx = self.oam[o + 3] as i32;
        let h: i32 = if tall {
            16
        } else {
            8
        };
        let row = ly - sy;
        if row < 0 || row >= h {
            assert(buffer@ =~= target);
            return;
        }
        let behind = attr & 0x20 != 0;
        let (lo, hi) = self.sprite_row(cart, tile, attr, row);
        let base = ly as usize * 256;
        let mut col: i32 = 0;
        while col < 8
            invariant
                0 <= col <= 8,
                self.wf(),
                0 <= ly < 240,
                ly == self@.ly,
                base == ly * 256,
                sx == self@.oam[o + 3] as int,
                o == i * 4,
                i < 64,
                0 <= row < sprite_height(self@.ctrl),
                row == ly - (self@.oam[o as int] as int + 1),
                tile == self@.oam[o + 1],
                attr == self@.oam[o + 2],
                pal == (4 + (attr & 3)) as u8,
                clip == (self@.mask & 0x04 == 0),
                behind == (attr & 0x20 != 0),
                (lo, hi) == sprite_planes(self@, cart@, tile, attr, row as int),
                target == sprite_layer(self@, cart@, i as int, buf0),
                forall|j: int| #[trigger] sprite_shows(self@, cart@, i as int, j) ==> j < buf0.len(),
                buffer@.len() == buf0.len(),
                forall|j: int|
                    0 <= j < buffer@.len() ==> #[trigger] buffer@[j] == (if base + sx <= j < base
                        + sx + col {
                        target[j]
                    } else {
                        buf0[j]
                    }),
            decreases 8 - col,
        {
            let bit = if attr & 0x40 != 0 {
                col
            } else {
                7 - col
            };
            let cid = color_id(lo, hi, bit as u8);
            let px = sx + col;
            assert(cid == sprite_cid(self@, cart@, tile, attr, row as int, col as int));
            if cid != 0 && px < 256 && !(clip && px < 8) && !(behind && self.bg_cid[px as usize]
                != 0) {
                assert(sprite_shows(self@, cart@, i as int, base + px));
                let color = self.rgb((pal << 2) | cid);
                buffer[base + px as usize] = color;
            }
            col = col + 1;
        }
        assert(buffer@ =~= target);
    }

    /// Draws the sprites of the current line (`ly` below 240) into row `ly`
    /// of the 256-pixel-wide `buffer`, sprite 63 first so that sprite 0
    /// ends on top; sprites behind the background show only where its
    /// colour index is 0.
    pub fn draw_sprites(&self, cart: &Cart, buffer: &mut [u32])
        requires
            self.wf(),
            self@.ly < 240 && self@.mask & 0x10 != 0 ==> sprites_fit(self@, cart@, old(buffer)@.len() as int),
        ensures
            final(buffer)@ == draw_sprites_spec(self@, cart@, old(buffer)@),
    {
        if self.mask & 0x10 == 0 {
            return;
        }
        if self.ly >= 240 {
            return;
        }
        let ghost buf0 = buffer@;
        let mut i: usize = 64;
        while i > 0
            invariant
                0 <= i <= 64,
                self.wf(),
                self@.ly < 240,
                sprites_fit(self@, cart@, buf0.len() as int),
                buffer@.len() == buf0.len(),
                buffer@ == sprites_from_back(self@, cart@, 64 - i, buf0),
            decreases i,
        {
            i = i - 1;
            proof {
                lemma_sprites_keep_len(self@, cart@, 64 - i - 1, buf0);
            }
            self.draw_sprite(cart, buffer, i);
        }
    }
}


// ---------------------------------------------------------------------------
// Laws
// ---------------------------------------------------------------------------
/// A byte written to a nametable address reads back there, and only
/// nametable RAM changes.
pub proof fn lemma_nametable_roundtrip(p: PpuView, c: CartView, a: u16, v: u8)
    requires
        ppu_wf(p),
        0x2000 <= a as int % 0x4000 < 0x3F00,
    ensures
        ({
            let (p1, c1) = mem_write_spec(p, c, a, v);
            &&& c1 == c
            &&& mem_read_spec(p1, c1, a) == v
            &&& p1 == PpuView { vram: p1.vram, ..p }
        }),
{
    let x = (a as int % 0x4000) as u16;
    lemma_vram_index_bound(c.mirror, x);
}

proof fn lemma_vram_index_bound(mirror: u8, a: u16)
    requires
        0x2000 <= a < 0x3F00,
    ensures
        0 <= vram_index(mirror, a) < 0x800,
{
    let nt = ((a as int - 0x2000) % 0x1000) as u16;
    assert(nt_bank_spec(mirror, nt) <= 1) by {
        let n = (nt / 0x400) & 3;
        assert(n & 1 <= 1 && (n >> 1) & 1 <= 1) by (bit_vector);
    }
}

/// A palette entry reads back with its six colour bits; entries 0x10, 0x14,
/// 0x18 and 0x1C are the same cells as 0x00, 0x04, 0x08 and 0x0C.
pub proof fn lemma_palette_roundtrip(p: PpuView, c: CartView, a: u16, b: u16, v: u8)
    requires
        ppu_wf(p),
        0x3F00 <= a as int % 0x4000,
        0x3F00 <= b as int % 0x4000,
        palette_index((a as int % 0x4000) as u16) == palette_index((b as int % 0x4000) as u16),
    ensures
        mem_read_spec(mem_write_spec(p, c, a, v).0, c, b) == v % 64,
{
}

/// Two writes to PPUADDR (0x2006), high byte first, point `v` at the
/// 14-bit address they form.
pub proof fn lemma_ppuaddr(p: PpuView, c: CartView, hi: u8, lo: u8)
    requires
        !p.w,
    ensures
        ({
            let p2 = write_reg_spec(write_reg_spec(p, c, 0x2006, hi).0, c, 0x2006, lo).0;
            p2.v == (hi % 64) as int * 256 + lo as int && !p2.w
        }),
{
    let t0 = p.t;
    let t1 = (t0 & 0x00FF) | ((hi as u16 & 0x3F) << 8u16);
    let t2 = (t1 & 0xFF00) | lo as u16;
    assert(t2 == (hi % 64) as int * 256 + lo as int) by (bit_vector)
        requires
            t1 == (t0 & 0x00FF) | ((hi as u16 & 0x3F) << 8u16),
            t2 == (t1 & 0xFF00) | lo as u16,
    ;
}

/// A byte written through PPUDATA (0x2007) to a nametable address comes
/// back through PPUDATA: pointing `v` at the address again, the first read
/// fills the delay buffer and the second read returns the byte.
pub proof fn lemma_data_port_roundtrip(p: PpuView, c: CartView, a: u16, x: u8)
    requires
        ppu_wf(p),
        0x2000 <= a < 0x3EE0,
    ensures
        ({
            let (p1, c1) = write_reg_spec(PpuView { v: a, ..p }, c, 0x2007, x);
            let (p2, _) = read_reg_spec(PpuView { v: a, ..p1 }, c1, 0x2007);
            let (_, r) = read_reg_spec(p2, c1, 0x2007);
            r == x
        }),
{
    lemma_nametable_roundtrip(PpuView { v: a, ..p }, c, a, x);
}


/// Drawing sprites keeps the length of the picture.
pub proof fn lemma_sprites_keep_len(p: PpuView, c: CartView, k: int, buf: Seq<u32>)
    ensures
        sprites_from_back(p, c, k, buf).len() == buf.len(),
    decreases k,
{
    if k > 0 {
        lemma_sprites_keep_len(p, c, k - 1, buf);
    }
}

/// Sprite priority: at each pixel of the line, the sprites leave the colour
/// of the lowest-numbered sprite that shows there.
pub proof fn lemma_sprite_priority(p: PpuView, c: CartView, buf: Seq<u32>, i: int, j: int)
    requires
        0 <= i < 64,
        0 <= j < buf.len(),
        sprite_shows(p, c, i, j),
        forall|i2: int| 0 <= i2 < i ==> !#[trigger] sprite_shows(p, c, i2, j),
    ensures
        sprites_from_back(p, c, 64, buf)[j] == sprite_pixel(p, c, i, j),
{
    lemma_priority_from(p, c, buf, i, j, 64);
}

proof fn lemma_priority_from(p: PpuView, c: CartView, buf: Seq<u32>, i: int, j: int, k: int)
    requires
        0 <= i < 64,
        64 - i <= k <= 64,
        0 <= j < buf.len(),
        sprite_shows(p, c, i, j),
        forall|i2: int| 0 <= i2 < i ==> !#[trigger] sprite_shows(p, c, i2, j),
    ensures
        sprites_from_back(p, c, k, buf)[j] == sprite_pixel(p, c, i, j),
    decreases k,
{
    lemma_sprites_keep_len(p, c, k - 1, buf);
    if k > 64 - i {
        lemma_priority_from(p, c, buf, i, j, k - 1);
        assert(!sprite_shows(p, c, 64 - k, j));
    }
}

/// The palette of the background tile that `v` points at: of the 4x4-tile
/// block (coarse X / 4, coarse Y / 4) of `v`'s nametable, its attribute byte
/// holds one two-bit palette per 2x2-tile quadrant, left to right and top to
/// bottom from bit 0; bit 1 of coarse X picks the right half and bit 1 of
/// coarse Y the bottom half.
pub proof fn lemma_bg_palette(p: PpuView, c: CartView, v: u16)
    ensures
        ({
            let cx = v % 32;
            let cy = (v / 32) % 32;
            let nt = (v / 1024) % 4;
            let attr = mem_read_spec(p, c, (0x23C0 + nt * 0x400 + (cy / 4) * 8 + cx / 4) as u16);
            let quadrant = 2 * ((cy / 2) % 2) + (cx / 2) % 2;
            bg_tile_spec(p, c, v).2 == (attr >> (2 * quadrant) as u16) & 3
        }),
{
    let cx = v % 32;
    let cy = (v / 32) % 32;
    let nt = (v / 1024) % 4;
    assert((0x23C0u16 | (v & 0x0C00) | ((v >> 4u16) & 0x38) | ((v >> 2u16) & 0x07)) == (0x23C0 + ((v
        / 1024) % 4) * 0x400 + (((v / 32) % 32) / 4) * 8 + (v % 32) / 4) as u16) by (bit_vector);
    assert((((v >> 4u16) & 4) | (v & 2)) == (2 * (2 * ((((v / 32) % 32) / 2) % 2) + ((v % 32) / 2)
        % 2)) as u16) by (bit_vector);
}

/// Sprite flips: attribute bit 6 mirrors a sprite left to right and bit 7
/// top to bottom, whatever the other attribute bits and the sprite size.
pub proof fn lemma_sprite_flips(p: PpuView, c: CartView, tile: u8, attr: u8, row: int, col: int)
    requires
        0 <= row < sprite_height(p.ctrl),
        0 <= col < 8,
    ensures
        sprite_cid(p, c, tile, attr | 0x40, row, col) == sprite_cid(p, c, tile, attr & !0x40u8, row, 7 - col),
        sprite_cid(p, c, tile, attr | 0x80, row, col) == sprite_cid(
            p,
            c,
            tile,
            attr & !0x80u8,
            sprite_height(p.ctrl) - 1 - row,
            col,
        ),
{
    let h1 = attr | 0x40;
    let h0 = attr & !0x40u8;
    let v1 = attr | 0x80;
    let v0 = attr & !0x80u8;
    assert(h1 & 0x40 != 0 && h0 & 0x40 == 0 && (h1 & 0x80 != 0) == (h0 & 0x80 != 0) && v1 & 0x80
        != 0 && v0 & 0x80 == 0 && (v1 & 0x40 != 0) == (v0 & 0x40 != 0)) by (bit_vector)
        requires
            h1 == attr | 0x40,
            h0 == attr & !0x40u8,
            v1 == attr | 0x80,
            v0 == attr & !0x80u8,
    ;
    assert(sprite_planes(p, c, tile, h1, row) == sprite_planes(p, c, tile, h0, row));
    assert(sprite_planes(p, c, tile, v1, row) == sprite_planes(
        p,
        c,
        tile,
        v0,
        sprite_height(p.ctrl) - 1 - row,
    ));
}

/// Moving one tile right: the tile column (coarse X with the horizontal
/// nametable bit above it, 0..64) advances by one and wraps at 64, leaving
/// coarse Y, the vertical nametable bit and fine Y as they were.
pub proof fn lemma_inc_x_fields(v: u16)
    ensures
        ({
            let w = inc_x_spec(v);
            &&& (w / 1024 % 2) * 32 + w % 32 == ((v / 1024 % 2) * 32 + v % 32 + 1) % 64
            &&& w / 32 % 32 == v / 32 % 32
            &&& w / 2048 == v / 2048
        }),
{
    assert(({
        let w: u16 = if v & 0x001F == 0x001F {
            (v & !0x001Fu16) ^ 0x0400
        } else {
            (v + 1) as u16
        };
        &&& (w / 1024 % 2) * 32 + w % 32 == ((v / 1024 % 2) * 32 + v % 32 + 1) % 64
        &&& w / 32 % 32 == v / 32 % 32
        &&& w / 2048 == v / 2048
    })) by (bit_vector);
}

/// Moving one pixel row down: fine Y advances; from the last pixel row of a
/// tile it wraps to 0 and the tile row (coarse Y) advances, wrapping from
/// row 29 to 0 of the other vertical nametable, and from rows 30 and 31
/// (attribute memory) to 0 of the same one. Coarse X and the horizontal
/// nametable bit are kept.
pub proof fn lemma_inc_y_fields(v: u16)
    ensures
        ({
            let w = inc_y_spec(v);
            let fy = v / 4096 % 8;
            let cy = v / 32 % 32;
            let ny = v / 2048 % 2;
            &&& w % 1024 == (w / 32 % 32) * 32 + v % 32
            &&& w / 1024 % 2 == v / 1024 % 2
            &&& w / 32768 == v / 32768
            &&& w / 4096 % 8 == (fy + 1) % 8
            &&& fy < 7 ==> w / 32 % 32 == cy && w / 2048 % 2 == ny
            &&& fy == 7 ==> w / 32 % 32 == (if cy == 29 || cy == 31 {
                0
            } else {
                cy + 1
            }) && w / 2048 % 2 == (if cy == 29 {
                1 - ny
            } else {
                ny as int
            })
        }),
{
    assert(({
        let w: u16 = if v & 0x7000 != 0x7000 {
            (v + 0x1000) as u16
        } else {
            let v1 = v & !0x7000u16;
            let y = (v1 & 0x03E0) >> 5;
            if y == 29 {
                ((v1 ^ 0x0800) & !0x03E0u16) | (0u16 << 5)
            } else if y == 31 {
                (v1 & !0x03E0u16) | (0u16 << 5)
            } else {
                (v1 & !0x03E0u16) | ((y + 1) as u16) << 5
            }
        };
        let fy = v / 4096 % 8;
        let cy = v / 32 % 32;
        let ny = v / 2048 % 2;
        &&& w % 1024 == (w / 32 % 32) * 32 + v % 32
        &&& w / 1024 % 2 == v / 1024 % 2
        &&& w / 32768 == v / 32768
        &&& w / 4096 % 8 == (fy + 1) % 8
        &&& fy < 7 ==> w / 32 % 32 == cy && w / 2048 % 2 == ny
        &&& fy == 7 ==> w / 32 % 32 == (if cy == 29 || cy == 31 {
            0
        } else {
            cy + 1
        }) && w / 2048 % 2 == (if cy == 29 {
            1 - ny
        } else {
            ny as int
        })
    })) by (bit_vector);
}

} // verus!
