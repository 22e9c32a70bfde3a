//! The Game Boy: memory map, screen rendering and the per-frame loop.
pub mod mmu;

use vstd::prelude::*;
use crate::cpu::{signed8, Cpu, step_sem, lemma_step_bus_invariant, poke_preserves};
use crate::gui::Pad;
use crate::gb::mmu::{Mmu, MmuView, peek_sem, tick_view, ppu_view, counters_small, joypad_view, lemma_joypad_keeps_counters, lemma_write_keeps_counters, lemma_tick_ppu_counters};
use crate::pixel::{color_id, color_id_spec};

verus! {

pub const SCREEN_WIDTH: usize = 160;

pub const SCREEN_HEIGHT: usize = 144;

/// Address of row `row` of tile `tile_id` in the tile data area selected by
/// LCDC bit 4 (unsigned from 0x8000, or signed around 0x9000).
pub open spec fn tile_addr_sem(lcdc: u8, tile_id: u8, row: u8) -> u16 {
    let base: int = if lcdc & 0x10 != 0 {
        0x8000 + tile_id as int * 16
    } else {
        0x9000 + signed8(tile_id) * 16
    };
    (base + row as int * 2) as u16
}

/// The colour of screen pixel (`x`, `y`) in the background layer or the
/// window layer; `None` where the window does not cover the pixel.
pub open spec fn layer_pixel(m: MmuView, colors: Seq<u32>, window: bool, x: int, y: int) -> Option<u32> {
    let lcdc = peek_sem(m, 0xFF40);
    let map: int = if window {
        if lcdc & 0x40 != 0 {
            0x9C00
        } else {
            0x9800
        }
    } else {
        if lcdc & 0x08 != 0 {
            0x9C00
        } else {
            0x9800
        }
    };
    let lx: int = if window {
        x - (peek_sem(m, 0xFF4B) as int - 7)
    } else {
        x + m.scx_line[y] as int
    };
    let ly: int = if window {
        y - peek_sem(m, 0xFF4A) as int
    } else {
        y + m.scy_line[y] as int
    };
    if window && (lx < 0 || ly < 0) {
        None
    } else {
        let px = lx % 256;
        let py = ly % 256;
        let tile_id = peek_sem(m, (map + (py / 8) * 32 + px / 8) as u16);
        let addr = tile_addr_sem(lcdc, tile_id, (py % 8) as u8);
        let b1 = peek_sem(m, addr);
        let b2 = peek_sem(m, (addr + 1) as u16);
        Some(colors[color_id_spec(b1, b2, (7 - px % 8) as u8) as int])
    }
}

/// The frame buffer `buf` after drawing a layer over its first 160x144
/// pixels.
pub open spec fn layer_sem(m: MmuView, colors: Seq<u32>, window: bool, buf: Seq<u32>) -> Seq<u32> {
    Seq::new(
        buf.len(),
        |p: int|
            if p < 23040 {
                match layer_pixel(m, colors, window, p % 160, p / 160) {
                    Some(c) => c,
                    None => buf[p],
                }
            } else {
                buf[p]
            },
    )
}

/// Height in pixels of the sprites selected by LCDC bit 2.
pub open spec fn sprite_height(lcdc: u8) -> int {
    if lcdc & 0x04 != 0 {
        16
    } else {
        8
    }
}

/// Colour index of the pixel at (`row`, `col`) of sprite `i`.
pub open spec fn sprite_cid(m: MmuView, lcdc: u8, i: int, row: int, col: int) -> u8 {
    let o = 0xFE00 + i * 4;
    let tile = peek_sem(m, (o + 2) as u16);
    let attr = peek_sem(m, (o + 3) as u16);
    let h = sprite_height(lcdc);
    let ry = if attr & 0x40 != 0 {
        h - 1 - row
    } else {
        row
    };
    let tid: int = if lcdc & 0x04 != 0 {
        (tile & 0xFE) as int + if ry >= 8 {
            1int
        } else {
            0
        }
    } else {
        tile as int
    };
    let addr = 0x8000 + tid * 16 + (ry % 8) * 2;
    let bit = if attr & 0x20 != 0 {
        col
    } else {
        7 - col
    };
    color_id_spec(peek_sem(m, addr as u16), peek_sem(m, (addr + 1) as u16), bit as u8)
}

/// The buffer after drawing the pixels of sprite `i` whose position
/// `row * 8 + col` in the sprite is below `limit`.
pub open spec fn sprite_layer(m: MmuView, colors: Seq<u32>, lcdc: u8, i: int, limit: int, buf: Seq<
    u32,
>) -> Seq<u32> {
    let o = 0xFE00 + i * 4;
    let sy = peek_sem(m, o as u16) as int - 16;
    let sx = peek_sem(m, (o + 1) as u16) as int - 8;
    Seq::new(
        buf.len(),
        |p: int|
            {
                let row = p / 160 - sy;
                let col = p % 160 - sx;
                if p < 23040 && 0 <= row < sprite_height(lcdc) && 0 <= col < 8 && row * 8 + col < limit
                    && sprite_cid(m, lcdc, i, row, col) != 0 {
                    colors[sprite_cid(m, lcdc, i, row, col) as int]
                } else {
                    buf[p]
                }
            },
    )
}

/// The buffer after drawing sprites 0..k in order (later ones on top).
pub open spec fn sprites_sem(m: MmuView, colors: Seq<u32>, lcdc: u8, k: int, buf: Seq<u32>) -> Seq<
    u32,
>
    decreases k,
{
    if k <= 0 {
        buf
    } else {
        sprite_layer(m, colors, lcdc, k - 1, 128, sprites_sem(m, colors, lcdc, k - 1, buf))
    }
}

proof fn lemma_sprites_len(m: MmuView, colors: Seq<u32>, lcdc: u8, k: int, buf: Seq<u32>)
    ensures
        sprites_sem(m, colors, lcdc, k, buf).len() == buf.len(),
    decreases k,
{
    if k > 0 {
        lemma_sprites_len(m, colors, lcdc, k - 1, buf);
    }
}

fn tile_addr(_mmu: &Mmu, lcdc: u8, tile_id: u8, row: u8) -> (r: u16)
    ensures
        r == tile_addr_sem(lcdc, tile_id, row),
{
    let base: u16 = if lcdc & 0x10 != 0 {
        0x8000u16 + tile_id as u16 * 16
    } else if tile_id < 128 {
        0x9000u16 + tile_id as u16 * 16
    } else {
        0x9000u16 - (256 - tile_id as u16) * 16
    };
    base + row as u16 * 2
}

/// Draws the background (`window == false`) or the window layer into the
/// first 160x144 pixels of `buffer`.
pub fn draw_layer(mmu: &Mmu, buffer: &mut [u32], colors: &[u32; 4], window: bool)
    requires
        old(buffer)@.len() >= 23040,
    ensures
        final(buffer)@ == layer_sem(mmu@, colors@, window, old(buffer)@),
{
    let lcdc = mmu.read_byte(0xFF40);
    let (ox, oy, map_base): (i32, i32, u16) = if window {
        let wx = mmu.read_byte(0xFF4B) as i32 - 7;
        let wy = mmu.read_byte(0xFF4A) as i32;
        let map: u16 = if lcdc & 0x40 != 0 {
            0x9C00
        } else {
            0x9800
        };
        (wx, wy, map)
    } else {
        let map: u16 = if lcdc & 0x08 != 0 {
            0x9C00
        } else {
            0x9800
        };
        (-(mmu.read_byte(0xFF43) as i32), -(mmu.read_byte(0xFF42) as i32), map)
    };
    proof {
        mmu.lemma_view_lens();
    }
    let ghost buf0 = buffer@;
    let ghost target = layer_sem(mmu@, colors@, window, buf0);
    let mut y: i32 = 0;
    while y < 144
        invariant
            0 <= y <= 144,
            buffer@.len() == buf0.len(),
            buf0.len() >= 23040,
            target == layer_sem(mmu@, colors@, window, buf0),
            ox == (if window {
                peek_sem(mmu@, 0xFF4B) as int - 7
            } else {
                -(peek_sem(mmu@, 0xFF43) as int)
            }),
            oy == (if window {
                peek_sem(mmu@, 0xFF4A) as int
            } else {
                -(peek_sem(mmu@, 0xFF42) as int)
            }),
            lcdc == peek_sem(mmu@, 0xFF40),
            map_base == (if window {
                if lcdc & 0x40 != 0 {
                    0x9C00int
                } else {
                    0x9800
                }
            } else {
                if lcdc & 0x08 != 0 {
                    0x9C00int
                } else {
                    0x9800
                }
            }),
            mmu@.scx_line.len() == 144,
            mmu@.scy_line.len() == 144,
            forall|p: int|
                0 <= p < buffer@.len() ==> #[trigger] buffer@[p] == (if p < y * 160 {
                    target[p]
                } else {
                    buf0[p]
                }),
        decreases 144 - y,
    {
        let mut x: i32 = 0;
        while x < 160
            invariant
                0 <= y < 144,
                0 <= x <= 160,
                buffer@.len() == buf0.len(),
                buf0.len() >= 23040,
                target == layer_sem(mmu@, colors@, window, buf0),
                ox == (if window {
                    peek_sem(mmu@, 0xFF4B) as int - 7
                } else {
                    -(peek_sem(mmu@, 0xFF43) as int)
                }),
                oy == (if window {
                    peek_sem(mmu@, 0xFF4A) as int
                } else {
                    -(peek_sem(mmu@, 0xFF42) as int)
                }),
                lcdc == peek_sem(mmu@, 0xFF40),
                map_base == (if window {
                    if lcdc & 0x40 != 0 {
                        0x9C00int
                    } else {
                        0x9800
                    }
                } else {
                    if lcdc & 0x08 != 0 {
                        0x9C00int
                    } else {
                        0x9800
                    }
                }),
                mmu@.scx_line.len() == 144,
                mmu@.scy_line.len() == 144,
                forall|p: int|
                    0 <= p < buffer@.len() ==> #[trigger] buffer@[p] == (if p < y * 160 + x {
                        target[p]
                    } else {
                        buf0[p]
                    }),
            decreases 160 - x,
        {
            let (lx, ly) = if window {
                (x - ox, y - oy)
            } else {
                (x + mmu.scx_at(y as usize) as i32, y + mmu.scy_at(y as usize) as i32)
            };
            let idx = (y * 160 + x) as usize;
            proof {
                assert(idx as int % 160 == x as int && idx as int / 160 == y as int);
            }
            if window && (lx < 0 || ly < 0) {
                x = x + 1;
                continue;
            }
            let px = ((lx as u32) % 256) as u16;
            let py = ((ly as u32) % 256) as u16;
            let tile_id = mmu.read_byte(map_base + (py / 8) * 32 + (px / 8));
            let addr = tile_addr(mmu, lcdc, tile_id, (py % 8) as u8);
            let b1 = mmu.read_byte(addr);
            let b2 = mmu.read_byte(addr + 1);
            let bit = (7 - (px % 8)) as u8;
            let cid = color_id(b1, b2, bit);
            buffer[idx] = colors[cid as usize];
            x = x + 1;
        }
        y = y + 1;
    }
    assert(buffer@ =~= target);
}


/// Draws the 40 sprites (later ones on top) into the first 160x144 pixels
/// of `buffer` when LCDC enables sprites; colour index 0 is transparent.
pub fn draw_sprites(mmu: &Mmu, buffer: &mut [u32], colors: &[u32; 4], lcdc: u8)
    requires
        old(buffer)@.len() >= 23040,
    ensures
        final(buffer)@ == (if lcdc & 0x02 == 0 {
            old(buffer)@
        } else {
            sprites_sem(mmu@, colors@, lcdc, 40, old(buffer)@)
        }),
{
    if lcdc & 0x02 == 0 {
        return;
    }
    let tall = lcdc & 0x04 != 0;
    let ghost buf0 = buffer@;
    let mut i: u16 = 0;
    while i < 40
        invariant
            0 <= i <= 40,
            lcdc & 0x02 != 0,
            tall == (lcdc & 0x04 != 0),
            buffer@.len() == buf0.len(),
            buf0.len() >= 23040,
            buffer@ == sprites_sem(mmu@, colors@, lcdc, i as int, buf0),
        decreases 40 - i,
    {
        let ghost base = buffer@;
        let o: u16 = 0xFE00 + i * 4;
        let sy = mmu.read_byte(o) as i32 - 16;
        let sx = mmu.read_byte(o + 1) as i32 - 8;
        let tile = mmu.read_byte(o + 2);
        let attr = mmu.read_byte(o + 3);
        let h: i32 = if tall {
            16
        } else {
            8
        };
        let mut row: i32 = 0;
        while row < h
            invariant
                0 <= i < 40,
                0 <= row <= h,
                h == sprite_height(lcdc),
                tall == (lcdc & 0x04 != 0),
                o == 0xFE00 + i * 4,
                sy == peek_sem(mmu@, o) as int - 16,
                sx == peek_sem(mmu@, (o + 1) as u16) as int - 8,
                tile == peek_sem(mmu@, (o + 2) as u16),
                attr == peek_sem(mmu@, (o + 3) as u16),
                base.len() >= 23040,
                buffer@ == sprite_layer(mmu@, colors@, lcdc, i as int, row * 8, base),
            decreases h - row,
        {
            let ry = if attr & 0x40 != 0 {
                h - 1 - row
            } else {
                row
            };
            assert((tile & 0xFE) <= 0xFE) by (bit_vector);
            let tid: u8 = if tall {
                (tile & 0xFE) + if ry >= 8 {
                    1
                } else {
                    0
                }
            } else {
                tile
            };
            let addr: u16 = 0x8000 + tid as u16 * 16 + (ry as u16 % 8) * 2;
            let b1 = mmu.read_byte(addr);
            let b2 = mmu.read_byte(addr + 1);
            let mut col: i32 = 0;
            while col < 8
                invariant
                    0 <= i < 40,
                    0 <= row < h,
                    0 <= col <= 8,
                    h == sprite_height(lcdc),
                    o == 0xFE00 + i * 4,
                    sy == peek_sem(mmu@, o) as int - 16,
                    sx == peek_sem(mmu@, (o + 1) as u16) as int - 8,
                    base.len() >= 23040,
                    forall|c: int|
                        0 <= c < 8 ==> #[trigger] sprite_cid(mmu@, lcdc, i as int, row as int, c)
                            == color_id_spec(
                            b1,
                            b2,
                            (if attr & 0x20 != 0 {
                                c
                            } else {
                                7 - c
                            }) as u8,
                        ),
                    attr == peek_sem(mmu@, (o + 3) as u16),
                    buffer@ == sprite_layer(mmu@, colors@, lcdc, i as int, row * 8 + col, base),
                decreases 8 - col,
            {
                let bit = if attr & 0x20 != 0 {
                    col
                } else {
                    7 - col
                };
                let cid = color_id(b1, b2, bit as u8);
                let px = sx + col;
                let py = sy + row;
                let ghost before = buffer@;
                if cid != 0 && 0 <= px && px < 160 && 0 <= py && py < 144 {
                    let idx = (py * 160 + px) as usize;
                    buffer[idx] = colors[cid as usize];
                    proof {
                        assert(idx as int / 160 == py && idx as int % 160 == px);
                    }
                }
                proof {
                    assert(sprite_cid(mmu@, lcdc, i as int, row as int, col as int) == cid);
                    assert(buffer@ =~= sprite_layer(mmu@, colors@, lcdc, i as int, row * 8 + col + 1, base))
                        by {
                        assert forall|p: int| 0 <= p < buffer@.len() implies buffer@[p]
                            == sprite_layer(mmu@, colors@, lcdc, i as int, row * 8 + col + 1, base)[p] by {
                            let r2 = p / 160 - sy;
                            let c2 = p % 160 - sx;
                            if p < 23040 && r2 * 8 + c2 == row * 8 + col && 0 <= c2 < 8 {
                                assert(r2 == row && c2 == col);
                            }
                        }
                    }
                }
                col = col + 1;
            }
            row = row + 1;
        }
        proof {
            assert(buffer@ =~= sprite_layer(mmu@, colors@, lcdc, i as int, 128, base)) by {
                assert forall|p: int| 0 <= p < buffer@.len() implies buffer@[p] == sprite_layer(
                    mmu@,
                    colors@,
                    lcdc,
                    i as int,
                    128,
                    base,
                )[p] by {
                    let r2 = p / 160 - sy;
                    let c2 = p % 160 - sx;
                    if 0 <= r2 < h && 0 <= c2 < 8 {
                        assert(r2 * 8 + c2 < h * 8);
                    }
                }
            }
        }
        i = i + 1;
    }
}


/// The four shades of the screen, lightest first.
pub open spec fn shades() -> Seq<u32> {
    seq![0xFFFFFFFFu32, 0xFFB5B5B5u32, 0xFF6B6B6Bu32, 0xFF000000u32]
}

/// Joypad nibbles for a pad (pressed = 0): buttons Start, Select, B, A on
/// bits 3..0, directions Down, Up, Left, Right on bits 3..0.
pub open spec fn pad_bits(pad: Pad) -> (u8, u8) {
    let buttons = (if pad.start {
        0int
    } else {
        8
    }) + (if pad.select {
        0int
    } else {
        4
    }) + (if pad.b {
        0int
    } else {
        2
    }) + (if pad.a {
        0int
    } else {
        1
    });
    let dpad = (if pad.down {
        0int
    } else {
        8
    }) + (if pad.up {
        0int
    } else {
        4
    }) + (if pad.left {
        0int
    } else {
        2
    }) + (if pad.right {
        0int
    } else {
        1
    });
    (buttons as u8, dpad as u8)
}

/// Runs the processor with timer and LCD for one frame (70224 clock cycles,
/// counted from `done`): the final processor and map, and whether the frame
/// completed (false when the processor stopped).
pub open spec fn frame_sem(cpu: Cpu, m: MmuView, done: int) -> (Cpu, MmuView, bool)
    decreases (if done < 70224 {
        70224 - done
    } else {
        0
    }),
{
    if done >= 70224 {
        (cpu, m, true)
    } else {
        let (c1, m1, n) = step_sem::<Mmu>(cpu, m);
        if n == 0 {
            (c1, m1, false)
        } else {
            frame_sem(c1, ppu_view(tick_view(m1, n), n), done + n)
        }
    }
}

/// The picture of a finished frame drawn over `buf`.
pub open spec fn render_sem(m: MmuView, buf: Seq<u32>) -> Seq<u32> {
    let lcdc = peek_sem(m, 0xFF40);
    if lcdc & 0x80 == 0 {
        Seq::new(buf.len(), |i: int| 0xFF8BAC0Fu32)
    } else {
        let b1 = layer_sem(m, shades(), false, buf);
        let b2 = if lcdc & 0x20 != 0 {
            layer_sem(m, shades(), true, b1)
        } else {
            b1
        };
        if lcdc & 0x02 == 0 {
            b2
        } else {
            sprites_sem(m, shades(), lcdc, 40, b2)
        }
    }
}

/// The joypad nibbles for the held buttons of `pad`.
pub fn pad_to_joypad(pad: Pad) -> (r: (u8, u8))
    ensures
        r == pad_bits(pad),
{
    let mut buttons: u8 = 0x0F;
    let mut dpad: u8 = 0x0F;
    if pad.start {
        buttons = buttons - 8;
    }
    if pad.select {
        buttons = buttons - 4;
    }
    if pad.b {
        buttons = buttons - 2;
    }
    if pad.a {
        buttons = buttons - 1;
    }
    if pad.down {
        dpad = dpad - 8;
    }
    if pad.up {
        dpad = dpad - 4;
    }
    if pad.left {
        dpad = dpad - 2;
    }
    if pad.right {
        dpad = dpad - 1;
    }
    (buttons, dpad)
}

/// Runs one frame of processor, timer and LCD; false when the processor
/// stopped (PC in 0x8000..0xC000 or an opcode it does not implement).
pub fn run_frame(cpu: &mut Cpu, mmu: &mut Mmu) -> (ok: bool)
    requires
        counters_small(old(mmu)@),
    ensures
        (*final(cpu), final(mmu)@, ok) == frame_sem(*old(cpu), old(mmu)@, 0),
        counters_small(final(mmu)@),
{
    let ghost inv = |v: MmuView| counters_small(v);
    proof {
        assert forall|v: MmuView, a: u16, x: u8| inv(v) implies #[trigger] inv(
            <Mmu as crate::cpu::GbBus>::poke(v, a, x),
        ) by {
            lemma_write_keeps_counters(v, a, x);
        }
        assert(poke_preserves::<Mmu>(inv));
    }
    let mut frame_cycles: u32 = 0;
    while frame_cycles < 70224
        invariant
            frame_cycles <= 70224 + 24,
            counters_small(mmu@),
            poke_preserves::<Mmu>(inv),
            inv == (|v: MmuView| counters_small(v)),
            frame_sem(*cpu, mmu@, frame_cycles as int) == frame_sem(*old(cpu), old(mmu)@, 0),
        decreases 70224 + 24 - frame_cycles,
    {
        let ghost c0 = *cpu;
        let ghost m0 = mmu@;
        let cycles = cpu.step(mmu);
        proof {
            lemma_step_bus_invariant::<Mmu>(c0, m0, inv);
        }
        if cycles == 0 {
            return false;
        }
        proof {
            lemma_tick_ppu_counters(mmu@, cycles);
        }
        mmu.tick(cycles);
        mmu.ppu_step(cycles);
        frame_cycles = frame_cycles + cycles;
    }
    true
}

/// Draws the finished frame: a blank screen when the LCD is off, otherwise
/// background, window (when enabled) and sprites.
pub fn render(mmu: &Mmu, buffer: &mut [u32])
    requires
        old(buffer)@.len() >= 23040,
    ensures
        final(buffer)@ == render_sem(mmu@, old(buffer)@),
{
    let lcdc = mmu.read_byte(0xFF40);
    let colors: [u32; 4] = [0xFFFFFFFF, 0xFFB5B5B5, 0xFF6B6B6B, 0xFF000000];
    assert(colors@ =~= shades());
    if lcdc & 0x80 == 0 {
        let ghost n = buffer@.len();
        let mut i: usize = 0;
        while i < buffer.len()
            invariant
                0 <= i <= buffer@.len(),
                buffer@.len() == n,
                forall|j: int| 0 <= j < i ==> #[trigger] buffer@[j] == 0xFF8BAC0Fu32,
            decreases buffer@.len() - i,
        {
            buffer[i] = 0xFF8BAC0F;
            i = i + 1;
        }
        assert(buffer@ =~= Seq::new(n, |i: int| 0xFF8BAC0Fu32));
    } else {
        draw_layer(mmu, buffer, &colors, false);
        if lcdc & 0x20 != 0 {
            draw_layer(mmu, buffer, &colors, true);
        }
        draw_sprites(mmu, buffer, &colors, lcdc);
    }
}

/// A Game Boy: processor, memory map and the 160x144 picture.
pub struct Emu {
    cpu: Cpu,
    mmu: Mmu,
    buffer: Vec<u32>,
}

impl Emu {
    pub closed spec fn wf(&self) -> bool {
        self.buffer@.len() == 23040 && counters_small(self.mmu@)
    }

    pub closed spec fn cpu_state(&self) -> Cpu {
        self.cpu
    }

    pub closed spec fn mmu_state(&self) -> MmuView {
        self.mmu@
    }

    pub closed spec fn picture(&self) -> Seq<u32> {
        self.buffer@
    }

    /// A machine with `rom` installed, the boot-time I/O registers and the
    /// processor as the boot ROM leaves it.
    pub fn load(rom: Vec<u8>) -> (r: Self)
        ensures
            r.wf(),
            r.cpu_state() == Cpu::new_spec(),
            r.picture() == Seq::new(23040, |i: int| 0u32),
    {
        let mut mmu = Mmu::new();
        mmu.load_rom(rom);
        mmu.init_after_boot();
        let buffer = vec![0u32; 23040];
        assert(buffer@ =~= Seq::new(23040, |i: int| 0u32));
        Emu { cpu: Cpu::new(), mmu, buffer }
    }

    /// One frame with `pad` held: the joypad is updated, the machine runs
    /// 70224 clock cycles and the picture is drawn. Returns false (and draws
    /// nothing) when the processor stopped.
    pub fn frame(&mut self, pad: Pad) -> (ok: bool)
        requires
            old(self).wf(),
        ensures
            final(self).wf(),
            ({
                let (b, d) = pad_bits(pad);
                let o = old(self);
                let m1 = joypad_view(o.mmu_state(), b, d);
                let (c2, m2, done) = frame_sem(o.cpu_state(), m1, 0);
                &&& final(self).cpu_state() == c2
                &&& final(self).mmu_state() == m2
                &&& ok == done
                &&& final(self).picture() == if done {
                    render_sem(m2, o.picture())
                } else {
                    o.picture()
                }
            }),
    {
        let (b, d) = pad_to_joypad(pad);
        proof {
            lemma_joypad_keeps_counters(self.mmu@, b, d);
        }
        self.mmu.set_joypad(b, d);
        let ok = run_frame(&mut self.cpu, &mut self.mmu);
        if ok {
            proof {
                let m = self.mmu@;
                let lcdc = peek_sem(m, 0xFF40);
                let b1 = layer_sem(m, shades(), false, self.buffer@);
                let b2 = if lcdc & 0x20 != 0 {
                    layer_sem(m, shades(), true, b1)
                } else {
                    b1
                };
                lemma_sprites_len(m, shades(), lcdc, 40, b2);
            }
            render(&self.mmu, self.buffer.as_mut_slice());
        }
        ok
    }

    /// The byte the processor would read at `addr`.
    pub fn read(&self, addr: u16) -> (r: u8)
        ensures
            r == peek_sem(self.mmu_state(), addr),
    {
        self.mmu.read_byte(addr)
    }

    /// The processor.
    pub fn cpu(&self) -> (r: &Cpu)
        ensures
            *r == self.cpu_state(),
    {
        &self.cpu
    }

    /// The picture, 160x144 pixels row by row.
    pub fn pixels(&self) -> (r: &[u32])
        ensures
            r@ == self.picture(),
    {
        self.buffer.as_slice()
    }

    /// Printable bytes sent through the serial port since the last call.
    pub fn take_serial(&mut self) -> (r: Vec<u8>)
        requires
            old(self).wf(),
        ensures
            final(self).wf(),
            r@ == old(self).mmu_state().serial,
            final(self).cpu_state() == old(self).cpu_state(),
            final(self).picture() == old(self).picture(),
    {
        self.mmu.take_serial()
    }
}


/// One step of the noise generator: multiply by 1103515245 and add 12345,
/// both modulo 2^32.
pub open spec fn lcg(seed: u32) -> u32 {
    (((seed as nat * 1103515245) % 0x1_0000_0000 + 12345) % 0x1_0000_0000) as u32
}

/// The generator state after `k` steps.
pub open spec fn lcg_iter(seed: u32, k: nat) -> u32
    decreases k,
{
    if k == 0 {
        seed
    } else {
        lcg(lcg_iter(seed, (k - 1) as nat))
    }
}

/// The grey pixel drawn for generator state `seed`: brightness bits 16..24
/// of the state in each colour channel, fully opaque.
pub open spec fn noise_pixel(seed: u32) -> u32 {
    let r = (seed as int / 65536) % 256;
    (0xFF000000 + r * 0x10000 + r * 0x100 + r) as u32
}

/// The seed the noise generator starts from.
pub const NOISE_SEED: u32 = 123456789;

/// Advances the generator and returns the brightness (0..=255) it gives.
pub fn rand_brightness(seed: &mut u32) -> (r: u32)
    ensures
        *final(seed) == lcg(*old(seed)),
        r == (lcg(*old(seed)) as int / 65536) % 256,
{
    *seed = seed.wrapping_mul(1103515245).wrapping_add(12345);
    (*seed / 65536) % 256
}

/// Fills `buffer` with grey noise, one generator step per pixel.
pub fn fill_noise(buffer: &mut [u32], seed: &mut u32)
    ensures
        *final(seed) == lcg_iter(*old(seed), old(buffer)@.len()),
        final(buffer)@.len() == old(buffer)@.len(),
        forall|i: int|
            0 <= i < old(buffer)@.len() ==> #[trigger] final(buffer)@[i] == noise_pixel(
                lcg_iter(*old(seed), (i + 1) as nat),
            ),
{
    let ghost s0 = *seed;
    let ghost n = buffer@.len();
    let mut i: usize = 0;
    while i < buffer.len()
        invariant
            0 <= i <= n,
            buffer@.len() == n,
            *seed == lcg_iter(s0, i as nat),
            forall|j: int| 0 <= j < i ==> #[trigger] buffer@[j] == noise_pixel(lcg_iter(s0, (j + 1) as nat)),
        decreases n - i,
    {
        let r = rand_brightness(seed);
        buffer[i] = 0xFF000000 + r * 0x10000 + r * 0x100 + r;
        i = i + 1;
    }
}

/// Sprite X flip: with bit 5 of its OAM attribute byte set, column `col` of
/// sprite `i` shows what column `7 - col` shows with the bit clear, the
/// rest of memory being the same.
pub proof fn lemma_sprite_x_flip(m: MmuView, lcdc: u8, i: int, row: int, col: int)
    requires
        m.memory.len() == 65536,
        0 <= i < 40,
        0 <= col < 8,
    ensures
        ({
            let o = 0xFE00 + i * 4 + 3;
            let attr = m.memory[o];
            let flipped = MmuView { memory: m.memory.update(o, attr | 0x20), ..m };
            let plain = MmuView { memory: m.memory.update(o, attr & !0x20u8), ..m };
            sprite_cid(flipped, lcdc, i, row, col) == sprite_cid(plain, lcdc, i, row, 7 - col)
        }),
{
    let o = 0xFE00 + i * 4 + 3;
    let attr = m.memory[o];
    let f = attr | 0x20;
    let g = attr & !0x20u8;
    assert(f & 0x20 != 0 && g & 0x20 == 0 && (f & 0x40 != 0) == (g & 0x40 != 0)) by (bit_vector)
        requires
            f == attr | 0x20,
            g == attr & !0x20u8,
    ;
    let flipped = MmuView { memory: m.memory.update(o, f), ..m };
    let plain = MmuView { memory: m.memory.update(o, g), ..m };
    assert(peek_sem(flipped, o as u16) == f && peek_sem(plain, o as u16) == g);
    assert(peek_sem(flipped, (o - 1) as u16) == peek_sem(plain, (o - 1) as u16));
    assert forall|a: u16| 0x8000 <= a < 0xA000 implies peek_sem(flipped, a) == peek_sem(plain, a) by {
    }
}

/// Sprite Y flip: with bit 6 of its OAM attribute byte set, row `row` of
/// sprite `i` shows what row `height - 1 - row` shows with the bit clear,
/// for 8x8 and 8x16 sprites alike.
pub proof fn lemma_sprite_y_flip(m: MmuView, lcdc: u8, i: int, row: int, col: int)
    requires
        m.memory.len() == 65536,
        0 <= i < 40,
        0 <= row < sprite_height(lcdc),
    ensures
        ({
            let o = 0xFE00 + i * 4 + 3;
            let attr = m.memory[o];
            let flipped = MmuView { memory: m.memory.update(o, attr | 0x40), ..m };
            let plain = MmuView { memory: m.memory.update(o, attr & !0x40u8), ..m };
            sprite_cid(flipped, lcdc, i, row, col) == sprite_cid(
                plain,
                lcdc,
                i,
                sprite_height(lcdc) - 1 - row,
                col,
            )
        }),
{
    let o = 0xFE00 + i * 4 + 3;
    let attr = m.memory[o];
    let f = attr | 0x40;
    let g = attr & !0x40u8;
    assert(f & 0x40 != 0 && g & 0x40 == 0 && (f & 0x20 != 0) == (g & 0x20 != 0)) by (bit_vector)
        requires
            f == attr | 0x40,
            g == attr & !0x40u8,
    ;
    let flipped = MmuView { memory: m.memory.update(o, f), ..m };
    let plain = MmuView { memory: m.memory.update(o, g), ..m };
    assert(peek_sem(flipped, o as u16) == f && peek_sem(plain, o as u16) == g);
    assert(peek_sem(flipped, (o - 1) as u16) == peek_sem(plain, (o - 1) as u16));
    assert forall|a: u16| 0x8000 <= a < 0xA000 implies peek_sem(flipped, a) == peek_sem(plain, a) by {
    }
}

} // verus!
