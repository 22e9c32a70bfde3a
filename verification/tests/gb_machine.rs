use kisel::cpu::Cpu;
use kisel::gb::mmu::Mmu;
use kisel::gb::{
    draw_layer, draw_sprites, fill_noise, pad_to_joypad, rand_brightness, Emu, NOISE_SEED,
    SCREEN_HEIGHT, SCREEN_WIDTH,
};
use kisel::gui::Pad;

fn banked_rom(banks: usize) -> Vec<u8> {
    let mut rom = vec![0u8; banks * 0x4000];
    for b in 0..banks {
        rom[b * 0x4000] = b as u8;
    }
    rom
}

fn no_buttons() -> Pad {
    Pad {
        a: false,
        b: false,
        select: false,
        start: false,
        up: false,
        down: false,
        left: false,
        right: false,
    }
}

#[test]
fn work_ram_reads_back() {
    let mut mmu = Mmu::new();
    mmu.write_byte(0xC123, 0x5A);
    mmu.write_byte(0xFF90, 0xA5);
    assert_eq!(mmu.read_byte(0xC123), 0x5A);
    assert_eq!(mmu.read_byte(0xFF90), 0xA5);
}

#[test]
fn rom_bank_switching() {
    let mut mmu = Mmu::new();
    mmu.load_rom(banked_rom(4));
    assert_eq!(mmu.read_byte(0x0000), 0);
    assert_eq!(mmu.read_byte(0x4000), 1);
    mmu.write_byte(0x2000, 2);
    assert_eq!(mmu.read_byte(0x4000), 2);
    mmu.write_byte(0x2000, 0);
    assert_eq!(mmu.read_byte(0x4000), 1);
    // Bank 5 of a 4-bank ROM wraps to bank 1.
    mmu.write_byte(0x3FFF, 5);
    assert_eq!(mmu.read_byte(0x4000), 1);
    // ROM is not writable.
    mmu.write_byte(0x0000, 0x77);
    assert_eq!(mmu.read_byte(0x0000), 0);
}

#[test]
fn rom_past_its_end_reads_ff() {
    let mut mmu = Mmu::new();
    mmu.load_rom(vec![0x11; 0x4000]);
    assert_eq!(mmu.read_byte(0x4000), 0xFF);
}

#[test]
fn oam_dma_copies_a_page() {
    let mut mmu = Mmu::new();
    for i in 0..0xA0u16 {
        mmu.write_byte(0xC000 + i, i as u8 ^ 0x55);
    }
    mmu.write_byte(0xFF46, 0xC0);
    for i in 0..0xA0u16 {
        assert_eq!(mmu.read_byte(0xFE00 + i), i as u8 ^ 0x55);
    }
}

#[test]
fn joypad_register_reads_selected_group() {
    let mut mmu = Mmu::new();
    let (buttons, dpad) = pad_to_joypad(Pad { a: true, up: true, ..no_buttons() });
    assert_eq!((buttons, dpad), (0x0E, 0x0B));
    mmu.set_joypad(buttons, dpad);
    mmu.write_byte(0xFF00, 0x10); // select the buttons (bit 5 low)
    assert_eq!(mmu.read_byte(0xFF00), 0xDE);
    mmu.write_byte(0xFF00, 0x20); // select the directions (bit 4 low)
    assert_eq!(mmu.read_byte(0xFF00), 0xEB);
}

#[test]
fn serial_port_records_printable_bytes() {
    let mut mmu = Mmu::new();
    mmu.write_byte(0xFF01, b'A');
    mmu.write_byte(0xFF02, 0x81);
    mmu.write_byte(0xFF01, 0x07);
    mmu.write_byte(0xFF02, 0x81);
    assert_eq!(mmu.take_serial(), vec![b'A']);
    assert!(mmu.take_serial().is_empty());
}

#[test]
fn divider_counts_every_256_cycles() {
    let mut mmu = Mmu::new();
    mmu.tick(255);
    assert_eq!(mmu.read_byte(0xFF04), 0);
    mmu.tick(1);
    assert_eq!(mmu.read_byte(0xFF04), 1);
    mmu.write_byte(0xFF04, 0x99);
    assert_eq!(mmu.read_byte(0xFF04), 0);
}

#[test]
fn timer_overflow_reloads_and_requests_interrupt() {
    let mut mmu = Mmu::new();
    mmu.write_byte(0xFF06, 0xF0); // TMA
    mmu.write_byte(0xFF05, 0xFF); // TIMA
    mmu.write_byte(0xFF07, 0x05); // on, 16 cycles
    mmu.tick(16);
    assert_eq!(mmu.read_byte(0xFF05), 0xF0);
    assert_eq!(mmu.read_byte(0xFF0F) & 0x04, 0x04);
}

#[test]
fn scanline_counter_advances() {
    let mut mmu = Mmu::new();
    mmu.ppu_step(456);
    assert_eq!(mmu.read_byte(0xFF44), 0); // LCD off: no change
    mmu.write_byte(0xFF40, 0x80);
    mmu.ppu_step(456);
    assert_eq!(mmu.read_byte(0xFF44), 1);
}

#[test]
fn background_layer_uses_tile_rows() {
    let mut mmu = Mmu::new();
    mmu.write_byte(0xFF40, 0x91);
    mmu.write_byte(0x8000, 0xFF); // tile 0, row 0: colour index 1 everywhere
    let colors = [10, 11, 12, 13];
    let mut buffer = vec![0u32; SCREEN_WIDTH * SCREEN_HEIGHT];
    draw_layer(&mmu, &mut buffer, &colors, false);
    assert_eq!(buffer[0], 11);
    assert_eq!(buffer[7], 11);
    assert_eq!(buffer[SCREEN_WIDTH], 10);
    assert_eq!(buffer[8 * SCREEN_WIDTH + 3], 11);
}

#[test]
fn sprites_draw_opaque_pixels() {
    let mut mmu = Mmu::new();
    // Sprite 0 at screen (0, 0), tile 1, whose first row is colour 3.
    mmu.write_byte(0xFE00, 16);
    mmu.write_byte(0xFE01, 8);
    mmu.write_byte(0xFE02, 1);
    mmu.write_byte(0xFE03, 0);
    mmu.write_byte(0x8010, 0xF0);
    mmu.write_byte(0x8011, 0xF0);
    let colors = [10, 11, 12, 13];
    let mut buffer = vec![0u32; SCREEN_WIDTH * SCREEN_HEIGHT];
    draw_sprites(&mmu, &mut buffer, &colors, 0x02);
    assert_eq!(buffer[0], 13);
    assert_eq!(buffer[3], 13);
    assert_eq!(buffer[4], 0);
    assert_eq!(buffer[SCREEN_WIDTH], 0);
}

#[test]
fn noise_generator_values() {
    let mut seed = NOISE_SEED;
    assert_eq!(rand_brightness(&mut seed), 208);
    assert_eq!(seed, 231794730);
    assert_eq!(rand_brightness(&mut seed), 43);
    assert_eq!(seed, 3274429979);
}

#[test]
fn noise_fills_grey_pixels() {
    let mut seed = NOISE_SEED;
    let mut buffer = vec![0u32; 2];
    fill_noise(&mut buffer, &mut seed);
    assert_eq!(buffer, vec![0xFFD0D0D0, 0xFF2B2B2B]);
    assert_eq!(seed, 3274429979);
}

#[test]
fn emulator_runs_a_looping_rom() {
    let mut rom = vec![0u8; 0x8000];
    rom[0x100] = 0x18; // JR -2
    rom[0x101] = 0xFE;
    let mut emu = Emu::load(rom);
    assert!(emu.frame(no_buttons()));
    assert_eq!(emu.cpu().pc, 0x100);
    assert_eq!(emu.pixels().len(), SCREEN_WIDTH * SCREEN_HEIGHT);
    // LCDC starts on (0x91) with zeroed VRAM: colour 0 everywhere.
    assert!(emu.pixels().iter().all(|&p| p == 0xFFFFFFFF));
}

#[test]
fn emulator_stops_on_undefined_opcode() {
    let mut rom = vec![0u8; 0x8000];
    rom[0x100] = 0xD3;
    let mut emu = Emu::load(rom);
    assert!(!emu.frame(no_buttons()));
    assert_eq!(emu.cpu().pc, 0x101);
}

#[test]
fn push_and_pop_through_the_banked_map() {
    // LD B,0x12 ; LD C,0x34 ; PUSH BC ; POP DE
    let mut rom = vec![0u8; 0x8000];
    rom[0x100..0x106].copy_from_slice(&[0x06, 0x12, 0x0E, 0x34, 0xC5, 0xD1]);
    let mut mmu = Mmu::new();
    mmu.load_rom(rom);
    let mut cpu = Cpu::new();
    for _ in 0..4 {
        cpu.step(&mut mmu);
    }
    assert_eq!(cpu.get_de(), 0x1234);
    assert_eq!(cpu.sp, 0xFFFE);
    assert_eq!(mmu.read_byte(0xFFFD), 0x12);
    assert_eq!(mmu.read_byte(0xFFFC), 0x34);
}

#[test]
fn two_ticks_equal_one() {
    let mut a = Mmu::new();
    let mut b = Mmu::new();
    for m in [&mut a, &mut b] {
        m.write_byte(0xFF06, 0x80);
        m.write_byte(0xFF07, 0x05);
        m.tick(100);
    }
    a.tick(300);
    a.tick(700);
    b.tick(1000);
    for addr in [0xFF04u16, 0xFF05, 0xFF0F] {
        assert_eq!(a.read_byte(addr), b.read_byte(addr));
    }
    assert_eq!(a.div_cycles, b.div_cycles);
    a.tick(40);
    b.tick(40);
    assert_eq!(a.read_byte(0xFF05), b.read_byte(0xFF05));
}

#[test]
fn scanline_step_keeps_stat_consistent() {
    let mut mmu = Mmu::new();
    mmu.write_byte(0xFF40, 0x80);
    mmu.write_byte(0xFF45, 2);
    let if0 = mmu.read_byte(0xFF0F);
    for _ in 0..400 {
        mmu.ppu_step(204);
        let ly = mmu.read_byte(0xFF44);
        let stat = mmu.read_byte(0xFF41);
        assert!(ly <= 153);
        assert_eq!(stat & 0x04 != 0, ly == 2);
        assert_eq!(stat & 0x03 == 1, ly >= 144);
        let if1 = mmu.read_byte(0xFF0F);
        assert_eq!(if1 & if0, if0);
        assert_eq!((if1 & !if0) & 0xFC, 0);
    }
}
