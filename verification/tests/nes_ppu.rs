use kisel::nes::cart::Cart;
use kisel::nes::ppu::{copy_x, inc_x, inc_y, Ppu};

/// A cartridge with CHR RAM and vertical mirroring.
fn cart() -> Cart {
    let mut data = vec![0u8; 16 + 0x4000];
    data[0..4].copy_from_slice(b"NES\x1A");
    data[4] = 1;
    data[6] = 0x01;
    Cart::load(&data).unwrap()
}

fn set_addr(ppu: &mut Ppu, cart: &mut Cart, addr: u16) {
    ppu.write_reg(0x2006, (addr >> 8) as u8, cart);
    ppu.write_reg(0x2006, addr as u8, cart);
}

#[test]
fn power_up_state() {
    let ppu = Ppu::new();
    assert_eq!((ppu.ctrl, ppu.mask, ppu.status, ppu.v, ppu.t, ppu.x, ppu.ly), (0, 0, 0, 0, 0, 0, 0));
    assert!(!ppu.w);
    assert!(ppu.oam.iter().all(|&b| b == 0xFF));
    assert!(!ppu.nmi_enabled());
}

#[test]
fn ppuaddr_sets_v_after_two_writes() {
    let mut cart = cart();
    let mut ppu = Ppu::new();
    ppu.write_reg(0x2006, 0x21, &mut cart);
    assert!(ppu.w);
    ppu.write_reg(0x2006, 0x08, &mut cart);
    assert!(!ppu.w);
    assert_eq!(ppu.v, 0x2108);
    // The top two bits of the high byte are dropped.
    set_addr(&mut ppu, &mut cart, 0xFF00);
    assert_eq!(ppu.v, 0x3F00);
}

#[test]
fn data_port_reads_are_delayed_by_one() {
    let mut cart = cart();
    let mut ppu = Ppu::new();
    set_addr(&mut ppu, &mut cart, 0x2108);
    ppu.write_reg(0x2007, 0xAB, &mut cart);
    ppu.write_reg(0x2007, 0xCD, &mut cart);
    assert_eq!(ppu.v, 0x210A);
    set_addr(&mut ppu, &mut cart, 0x2108);
    assert_eq!(ppu.read_reg(0x2007, &cart), 0x00);
    assert_eq!(ppu.read_reg(0x2007, &cart), 0xAB);
    assert_eq!(ppu.read_reg(0x2007, &cart), 0xCD);
}

#[test]
fn increment_of_32_with_ctrl_bit_2() {
    let mut cart = cart();
    let mut ppu = Ppu::new();
    ppu.write_reg(0x2000, 0x04, &mut cart);
    set_addr(&mut ppu, &mut cart, 0x2000);
    ppu.write_reg(0x2007, 1, &mut cart);
    assert_eq!(ppu.v, 0x2020);
}

#[test]
fn vertical_mirroring_of_nametables() {
    let mut cart = cart();
    let mut ppu = Ppu::new();
    set_addr(&mut ppu, &mut cart, 0x2005);
    ppu.write_reg(0x2007, 0x5A, &mut cart);
    set_addr(&mut ppu, &mut cart, 0x2805);
    ppu.read_reg(0x2007, &cart);
    assert_eq!(ppu.read_reg(0x2007, &cart), 0x5A);
}

#[test]
fn palette_reads_are_immediate_and_mirrored() {
    let mut cart = cart();
    let mut ppu = Ppu::new();
    set_addr(&mut ppu, &mut cart, 0x3F10);
    ppu.write_reg(0x2007, 0xFF, &mut cart);
    assert_eq!(ppu.palette[0], 0x3F);
    set_addr(&mut ppu, &mut cart, 0x3F00);
    assert_eq!(ppu.read_reg(0x2007, &cart), 0x3F);
}

#[test]
fn chr_ram_through_the_data_port() {
    let mut cart = cart();
    let mut ppu = Ppu::new();
    set_addr(&mut ppu, &mut cart, 0x0010);
    ppu.write_reg(0x2007, 0x99, &mut cart);
    assert_eq!(cart.chr_read(0x0010), 0x99);
}

#[test]
fn status_read_clears_vblank_and_latch() {
    let mut cart = cart();
    let mut ppu = Ppu::new();
    ppu.enter_vblank();
    ppu.write_reg(0x2005, 0x10, &mut cart);
    assert!(ppu.w);
    assert_eq!(ppu.read_reg(0x2002, &cart), 0x80);
    assert_eq!(ppu.status, 0);
    assert!(!ppu.w);
    // Mirrors every 8 bytes.
    ppu.enter_vblank();
    assert_eq!(ppu.read_reg(0x3FFA, &cart), 0x80);
}

#[test]
fn scroll_writes() {
    let mut cart = cart();
    let mut ppu = Ppu::new();
    ppu.write_reg(0x2005, 0x7D, &mut cart); // X = 125: coarse 15, fine 5
    ppu.write_reg(0x2005, 0x5E, &mut cart); // Y = 94: coarse 11, fine 6
    assert_eq!(ppu.x, 5);
    assert_eq!(ppu.t, 0x616F);
    ppu.write_reg(0x2000, 0x03, &mut cart);
    assert_eq!(ppu.t, 0x6D6F);
}

#[test]
fn oam_port_and_direct_writes() {
    let mut cart = cart();
    let mut ppu = Ppu::new();
    ppu.write_reg(0x2003, 0x10, &mut cart);
    ppu.write_reg(0x2004, 0x42, &mut cart);
    assert_eq!(ppu.oam[0x10], 0x42);
    assert_eq!(ppu.oam_addr, 0x11);
    ppu.write_oam(0x20, 0x24);
    ppu.write_reg(0x2003, 0x20, &mut cart);
    assert_eq!(ppu.read_reg(0x2004, &cart), 0x24);
}

#[test]
fn loopy_address_steps() {
    assert_eq!(inc_x(0x0005), 0x0006);
    assert_eq!(inc_x(0x001F), 0x0400);
    assert_eq!(inc_x(0x041F), 0x0000);
    assert_eq!(inc_y(0x0000), 0x1000);
    assert_eq!(inc_y(0x73A0), 0x0800);
    assert_eq!(inc_y(0x73E0), 0x0000);
    assert_eq!(inc_y(0x7020), 0x0040);
    assert_eq!(copy_x(0xFFFF, 0x0000), 0xFBE0);
    assert_eq!(copy_x(0x0000, 0xFFFF), 0x041F);
}

#[test]
fn pre_render_and_line_end() {
    let mut cart = cart();
    let mut ppu = Ppu::new();
    ppu.write_reg(0x2001, 0x08, &mut cart);
    set_addr(&mut ppu, &mut cart, 0x2000);
    ppu.write_reg(0x2006, 0x23, &mut cart);
    ppu.write_reg(0x2006, 0x45, &mut cart);
    ppu.enter_vblank();
    ppu.pre_render();
    assert_eq!(ppu.status, 0);
    assert_eq!(ppu.v, 0x2345);
    ppu.end_visible_line();
    assert_eq!(ppu.v, 0x3345);
}

#[test]
fn hidden_background_draws_the_backdrop() {
    let cart = cart();
    let mut ppu = Ppu::new();
    let mut buffer = vec![1u32; 256 * 240];
    ppu.ly = 3;
    ppu.draw_scanline(&cart, &mut buffer);
    assert!(buffer[3 * 256..4 * 256].iter().all(|&p| p == 0xFF545454));
    assert_eq!(buffer[2 * 256 + 255], 1);
    assert_eq!(buffer[4 * 256], 1);
    ppu.ly = 240;
    let before = buffer.clone();
    ppu.draw_scanline(&cart, &mut buffer);
    assert_eq!(buffer, before);
}

#[test]
fn background_tile_and_attribute() {
    let mut cart = cart();
    let mut ppu = Ppu::new();
    // Tile 1, row 0: plane 0 = 0xF0 -> colour 1 in the left half.
    set_addr(&mut ppu, &mut cart, 0x0010);
    ppu.write_reg(0x2007, 0xF0, &mut cart);
    // Nametable 0, first tile = 1; attribute byte 0: palette 2 for the top-left.
    set_addr(&mut ppu, &mut cart, 0x2000);
    ppu.write_reg(0x2007, 0x01, &mut cart);
    set_addr(&mut ppu, &mut cart, 0x23C0);
    ppu.write_reg(0x2007, 0x02, &mut cart);
    // Palette 2, colour 1 = hue 0x16; backdrop = hue 0x0F.
    set_addr(&mut ppu, &mut cart, 0x3F09);
    ppu.write_reg(0x2007, 0x16, &mut cart);
    set_addr(&mut ppu, &mut cart, 0x3F00);
    ppu.write_reg(0x2007, 0x0F, &mut cart);
    ppu.write_reg(0x2001, 0x0A, &mut cart);
    // v = 0: nametable 0, coarse and fine scroll 0.
    set_addr(&mut ppu, &mut cart, 0x0000);
    ppu.ly = 0;
    let mut buffer = vec![0u32; 256 * 240];
    ppu.draw_scanline(&cart, &mut buffer);
    assert_eq!(&buffer[0..4], &[0xFF982220; 4]);
    assert_eq!(&buffer[4..8], &[0xFF000000; 4]);
}

#[test]
fn sprite_drawn_over_the_backdrop() {
    let mut cart = cart();
    let mut ppu = Ppu::new();
    // Tile 1, row 0, plane 0 all set.
    set_addr(&mut ppu, &mut cart, 0x0010);
    ppu.write_reg(0x2007, 0xFF, &mut cart);
    // Sprite palette 0 (entry 0x11), colour 1 = hue 0x16.
    set_addr(&mut ppu, &mut cart, 0x3F11);
    ppu.write_reg(0x2007, 0x16, &mut cart);
    ppu.write_oam(0, 4); // y + 1 = 5
    ppu.write_oam(1, 1);
    ppu.write_oam(2, 0);
    ppu.write_oam(3, 10);
    ppu.write_reg(0x2001, 0x14, &mut cart);
    ppu.ly = 5;
    let mut buffer = vec![7u32; 256 * 240];
    ppu.draw_sprites(&cart, &mut buffer);
    let row = 5 * 256;
    assert_eq!(buffer[row + 9], 7);
    assert!(buffer[row + 10..row + 18].iter().all(|&p| p == 0xFF982220));
    assert_eq!(buffer[row + 18], 7);
    assert_eq!(buffer[4 * 256 + 10], 7);
}

#[test]
fn sprite_zero_hit() {
    let mut cart = cart();
    let mut ppu = Ppu::new();
    // Tile 1: rows 0 and 1 opaque in plane 0.
    set_addr(&mut ppu, &mut cart, 0x0010);
    ppu.write_reg(0x2007, 0xFF, &mut cart);
    ppu.write_reg(0x2007, 0xFF, &mut cart);
    // Background: tile 1 at column 1 of nametable row 0.
    set_addr(&mut ppu, &mut cart, 0x2001);
    ppu.write_reg(0x2007, 0x01, &mut cart);
    // Sprite 0 at x = 8, y + 1 = 1, tile 1.
    ppu.write_oam(0, 0x00);
    ppu.write_oam(1, 1);
    ppu.write_oam(2, 0);
    ppu.write_oam(3, 8);
    // Both layers on, no left clip; v and t = 0x1000 (fine Y 1).
    ppu.write_reg(0x2001, 0x1E, &mut cart);
    set_addr(&mut ppu, &mut cart, 0x1000);
    ppu.ly = 0;
    ppu.begin_visible_line(&cart);
    assert_eq!(ppu.status & 0x40, 0);
    ppu.ly = 1;
    ppu.begin_visible_line(&cart);
    assert_eq!(ppu.status & 0x40, 0x40);
}

#[test]
fn lower_numbered_sprite_wins() {
    let mut cart = cart();
    let mut ppu = Ppu::new();
    // Tile 1 row 0: colour 1; tile 2 row 0: colour 2.
    set_addr(&mut ppu, &mut cart, 0x0010);
    ppu.write_reg(0x2007, 0xFF, &mut cart);
    set_addr(&mut ppu, &mut cart, 0x0028);
    ppu.write_reg(0x2007, 0xFF, &mut cart);
    // Sprite palette 0: colour 1 = hue 0x16, colour 2 = hue 0x2A.
    set_addr(&mut ppu, &mut cart, 0x3F11);
    ppu.write_reg(0x2007, 0x16, &mut cart);
    ppu.write_reg(0x2007, 0x2A, &mut cart);
    // Sprite 3 (tile 2) at x = 0, sprite 5 (tile 1) at x = 4, both on line 0.
    for (i, tile, x) in [(3u8, 2u8, 0u8), (5, 1, 4)] {
        ppu.write_oam(i * 4, 0xFF);
        ppu.write_oam(i * 4 + 1, tile);
        ppu.write_oam(i * 4 + 2, 0);
        ppu.write_oam(i * 4 + 3, x);
    }
    ppu.write_oam(12, 0);
    ppu.write_oam(20, 0);
    ppu.write_reg(0x2001, 0x14, &mut cart);
    ppu.ly = 1;
    let mut buffer = vec![0u32; 256 * 240];
    ppu.draw_sprites(&cart, &mut buffer);
    let row = 256;
    assert!(buffer[row..row + 8].iter().all(|&p| p == 0xFF4CD020));
    assert!(buffer[row + 8..row + 12].iter().all(|&p| p == 0xFF982220));
}
