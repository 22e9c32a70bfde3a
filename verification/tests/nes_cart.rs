use kisel::nes::cart::{nes2_header, Cart, CartError};

fn image(prg_banks: u8, chr_banks: u8, flags6: u8, flags7: u8) -> Vec<u8> {
    let trainer = if flags6 & 0x04 != 0 { 512 } else { 0 };
    let mut data = vec![0u8; 16 + trainer + prg_banks as usize * 0x4000 + chr_banks as usize * 0x2000];
    data[0..4].copy_from_slice(b"NES\x1A");
    data[4] = prg_banks;
    data[5] = chr_banks;
    data[6] = flags6;
    data[7] = flags7;
    // First byte of each PRG bank holds the bank number.
    for b in 0..prg_banks as usize {
        data[16 + trainer + b * 0x4000] = b as u8;
    }
    data
}

#[test]
fn rejects_files_without_magic() {
    assert_eq!(Cart::load(b"ABC").err(), Some(CartError::NotINes));
    let mut data = image(1, 1, 0, 0);
    data[3] = 0;
    assert_eq!(Cart::load(&data).err(), Some(CartError::NotINes));
}

#[test]
fn rejects_truncated_images() {
    let data = image(1, 1, 0, 0);
    let short = &data[..100];
    assert_eq!(
        Cart::load(short).err(),
        Some(CartError::TooShort { len: 100, needed: 16 + 0x4000 + 0x2000 })
    );
}

#[test]
fn parses_header_fields() {
    let cart = Cart::load(&image(2, 1, 0x11, 0x00)).unwrap();
    assert_eq!(cart.prg.len(), 0x8000);
    assert_eq!(cart.chr.len(), 0x2000);
    assert_eq!(cart.mapper, 1);
    assert_eq!(cart.mapper_id(), 1);
    assert_eq!(cart.prg_banks, 2);
    assert_eq!(cart.chr_banks, 1);
    assert!(!cart.has_trainer);
    assert_eq!(cart.mirror_name(), "V");
    let cart = Cart::load(&image(1, 0, 0x00, 0x20)).unwrap();
    assert_eq!(cart.mapper, 0x20);
    assert_eq!(cart.mirror_name(), "H");
    // No CHR data: 8 KiB of CHR RAM.
    assert_eq!(cart.chr.len(), 0x2000);
}

#[test]
fn skips_the_trainer() {
    let cart = Cart::load(&image(1, 1, 0x04, 0)).unwrap();
    assert!(cart.has_trainer);
    assert_eq!(cart.prg[0], 0);
    assert_eq!(cart.prg.len(), 0x4000);
}

#[test]
fn nes2_headers_are_recognised() {
    assert!(nes2_header(&image(1, 1, 0, 0x08)));
    assert!(!nes2_header(&image(1, 1, 0, 0x0C)));
    assert!(!nes2_header(b"NES"));
}

#[test]
fn nametable_mirroring() {
    let v = Cart::load(&image(1, 1, 0x01, 0)).unwrap();
    assert_eq!(v.nt_bank(0x000), 0);
    assert_eq!(v.nt_bank(0x400), 1);
    assert_eq!(v.nt_bank(0x800), 0);
    assert_eq!(v.nt_bank(0xC00), 1);
    let h = Cart::load(&image(1, 1, 0x00, 0)).unwrap();
    assert_eq!(h.nt_bank(0x400), 0);
    assert_eq!(h.nt_bank(0x800), 1);
}

#[test]
fn nrom_prg_banks() {
    let big = Cart::load(&image(2, 1, 0, 0)).unwrap();
    assert_eq!(big.prg_read(0x8000), 0);
    assert_eq!(big.prg_read(0xC000), 1);
    let small = Cart::load(&image(1, 1, 0, 0)).unwrap();
    assert_eq!(small.prg_read(0xC000), 0);
}

#[test]
fn chr_ram_is_writable_and_chr_rom_is_not() {
    let mut ram = Cart::load(&image(1, 0, 0, 0)).unwrap();
    ram.chr_write(0x0010, 0xAA);
    assert_eq!(ram.chr_read(0x0010), 0xAA);
    let mut rom = Cart::load(&image(1, 1, 0, 0)).unwrap();
    rom.chr_write(0x0010, 0xAA);
    assert_eq!(rom.chr_read(0x0010), 0x00);
}

#[test]
fn mmc1_starts_with_last_bank_fixed_high() {
    let cart = Cart::load(&image(4, 1, 0x10, 0)).unwrap();
    assert_eq!(cart.prg_read(0x8000), 0);
    assert_eq!(cart.prg_read(0xC000), 3);
}

#[test]
fn mmc1_five_writes_select_a_prg_bank() {
    let mut cart = Cart::load(&image(4, 1, 0x10, 0)).unwrap();
    for bit in [0u8, 1, 0, 0, 0] {
        cart.prg_write(0xE000, bit);
    }
    assert_eq!(cart.prg_read(0x8000), 2);
    assert_eq!(cart.prg_read(0xC000), 3);
}

#[test]
fn mmc1_control_register_sets_mirroring() {
    let mut cart = Cart::load(&image(4, 1, 0x10, 0)).unwrap();
    // 0b01111: mirroring 3 (horizontal), PRG mode 3
    for bit in [1u8, 1, 1, 1, 0] {
        cart.mmc1_write(0x8000, bit);
    }
    assert_eq!(cart.mirror_name(), "H");
    for bit in [0u8, 1, 0, 0, 0] {
        cart.mmc1_write(0x8000, bit);
    }
    assert_eq!(cart.mirror_name(), "V");
}

#[test]
fn mmc1_reset_write_clears_the_shift_register() {
    let mut cart = Cart::load(&image(4, 1, 0x10, 0)).unwrap();
    cart.prg_write(0xE000, 1);
    cart.prg_write(0xE000, 0x80);
    for bit in [1u8, 0, 0, 0, 0] {
        cart.prg_write(0xE000, bit);
    }
    assert_eq!(cart.prg_read(0x8000), 1);
}

#[test]
fn mmc1_work_ram() {
    let mut cart = Cart::load(&image(2, 1, 0x10, 0)).unwrap();
    cart.wram_write(0x6005, 0x42);
    assert_eq!(cart.wram_read(0x6005), 0x42);
    let mut nrom = Cart::load(&image(2, 1, 0x00, 0)).unwrap();
    nrom.wram_write(0x6005, 0x42);
    assert_eq!(nrom.wram_read(0x6005), 0);
}

#[test]
fn banking_state_round_trip() {
    let mut cart = Cart::load(&image(4, 0, 0x10, 0)).unwrap();
    cart.chr_write(0x0001, 9);
    let saved = cart.capture_state();
    for bit in [1u8, 1, 0, 0, 0] {
        cart.prg_write(0xE000, bit);
    }
    cart.chr_write(0x0001, 7);
    assert_eq!(cart.prg_read(0x8000), 3);
    cart.load_state(&saved);
    assert_eq!(cart.prg_read(0x8000), 0);
    assert_eq!(cart.chr_read(0x0001), 9);
}

#[test]
fn uxrom_fixes_the_last_bank_high_and_switches_the_low_one() {
    // mapper 2: flags6 high nibble 2
    let mut cart = Cart::load(&image(4, 0, 0x20, 0)).unwrap();
    assert_eq!(cart.mapper_id(), 2);
    assert_eq!(cart.prg_read(0x8000), 0);
    assert_eq!(cart.prg_read(0xC000), 3);
    cart.prg_write(0x8000, 2);
    assert_eq!(cart.prg_read(0x8000), 2);
    assert_eq!(cart.prg_read(0xC000), 3);
    // The bank number wraps at the number of banks.
    cart.prg_write(0xFFFF, 0x05);
    assert_eq!(cart.prg_read(0x8000), 1);
    assert_eq!(cart.prg_read(0xC000), 3);
}

#[test]
fn cnrom_switches_8k_chr_banks() {
    // mapper 3: flags6 high nibble 3, two CHR banks
    let mut data = image(2, 2, 0x30, 0);
    let chr = 16 + 2 * 0x4000;
    data[chr + 0x0010] = 0xAA;
    data[chr + 0x2000 + 0x0010] = 0xBB;
    let mut cart = Cart::load(&data).unwrap();
    assert_eq!(cart.chr_read(0x0010), 0xAA);
    cart.prg_write(0x8000, 1);
    assert_eq!(cart.chr_read(0x0010), 0xBB);
    // Bank 3 wraps to bank 1 on a cartridge with two banks.
    cart.prg_write(0x8000, 0x03);
    assert_eq!(cart.chr_read(0x0010), 0xBB);
    cart.prg_write(0x8000, 0x04);
    assert_eq!(cart.chr_read(0x0010), 0xAA);
    // PRG as NROM: the second bank at 0xC000.
    assert_eq!(cart.prg_read(0xC000), 1);
}

#[test]
fn nrom_ignores_bank_writes() {
    let mut cart = Cart::load(&image(2, 1, 0x00, 0)).unwrap();
    cart.prg_write(0x8000, 1);
    assert_eq!(cart.prg_read(0x8000), 0);
    assert_eq!(cart.prg_read(0xC000), 1);
}
