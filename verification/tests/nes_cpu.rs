use kisel::nes::cart::Cart;
use kisel::nes::cpu::{Bus, Cpu, FLAG_C, FLAG_I, FLAG_N, FLAG_U, FLAG_V, FLAG_Z};
use kisel::nes::NesBus;

/// A 16 KiB NROM image with `program` at 0x8000 (and 0xC000) and the reset
/// vector pointing at 0x8000.
fn nes(program: &[(u16, &[u8])]) -> (Cpu, NesBus) {
    let mut data = vec![0u8; 16 + 0x4000 + 0x2000];
    data[0..4].copy_from_slice(b"NES\x1A");
    data[4] = 1;
    data[5] = 1;
    for (addr, bytes) in program {
        let off = 16 + (*addr as usize - 0x8000);
        data[off..off + bytes.len()].copy_from_slice(bytes);
    }
    data[16 + 0x3FFC] = 0x00;
    data[16 + 0x3FFD] = 0x80;
    let cart = Cart::load(&data).unwrap();
    let mut bus = NesBus::new(cart);
    let mut cpu = Cpu::new();
    cpu.reset(&mut bus);
    (cpu, bus)
}

const START: u8 = FLAG_U | FLAG_I;

#[test]
fn new_and_reset() {
    let cpu = Cpu::new();
    assert_eq!((cpu.a, cpu.x, cpu.y, cpu.sp, cpu.pc), (0, 0, 0, 0xFD, 0));
    assert_eq!(cpu.p, START);
    let (cpu, _) = nes(&[]);
    assert_eq!(cpu.pc, 0x8000);
    assert_eq!(cpu.sp, 0xFD);
    assert_eq!(cpu.p, START);
    let mut cpu = Cpu::new();
    cpu.a = 9;
    cpu.p = 0xFF;
    cpu.reset_at(0xC000);
    assert_eq!((cpu.a, cpu.pc, cpu.p, cpu.sp), (0, 0xC000, START, 0xFD));
}

#[test]
fn load_immediate_sets_zero_and_negative() {
    let (mut cpu, mut bus) = nes(&[(0x8000, &[0xA9, 0x00, 0xA9, 0x80])]);
    assert_eq!(cpu.step(&mut bus), 2);
    assert_eq!(cpu.a, 0);
    assert_eq!(cpu.p, START | FLAG_Z);
    cpu.step(&mut bus);
    assert_eq!(cpu.a, 0x80);
    assert_eq!(cpu.p, START | FLAG_N);
}

#[test]
fn add_with_signed_overflow() {
    // LDA #$50 ; ADC #$50
    let (mut cpu, mut bus) = nes(&[(0x8000, &[0xA9, 0x50, 0x69, 0x50])]);
    cpu.step(&mut bus);
    assert_eq!(cpu.step(&mut bus), 2);
    assert_eq!(cpu.a, 0xA0);
    assert_eq!(cpu.p, START | FLAG_V | FLAG_N);
}

#[test]
fn add_with_carry_out() {
    // SEC ; LDA #$FF ; ADC #$01  ->  0xFF + 1 + 1 = 0x101
    let (mut cpu, mut bus) = nes(&[(0x8000, &[0x38, 0xA9, 0xFF, 0x69, 0x01])]);
    cpu.step(&mut bus);
    cpu.step(&mut bus);
    cpu.step(&mut bus);
    assert_eq!(cpu.a, 0x01);
    assert_eq!(cpu.p, START | FLAG_C);
}

#[test]
fn subtract_with_and_without_borrow() {
    // SEC ; LDA #$50 ; SBC #$30
    let (mut cpu, mut bus) = nes(&[(0x8000, &[0x38, 0xA9, 0x50, 0xE9, 0x30])]);
    cpu.step(&mut bus);
    cpu.step(&mut bus);
    cpu.step(&mut bus);
    assert_eq!(cpu.a, 0x20);
    assert_eq!(cpu.p, START | FLAG_C);
    // SEC ; LDA #$50 ; SBC #$B0  ->  0xA0, borrow and overflow
    let (mut cpu, mut bus) = nes(&[(0x8000, &[0x38, 0xA9, 0x50, 0xE9, 0xB0])]);
    cpu.step(&mut bus);
    cpu.step(&mut bus);
    cpu.step(&mut bus);
    assert_eq!(cpu.a, 0xA0);
    assert_eq!(cpu.p, START | FLAG_V | FLAG_N);
}

#[test]
fn compare_sets_carry_and_zero() {
    // LDA #$10 ; CMP #$10 ; CMP #$20
    let (mut cpu, mut bus) = nes(&[(0x8000, &[0xA9, 0x10, 0xC9, 0x10, 0xC9, 0x20])]);
    cpu.step(&mut bus);
    cpu.step(&mut bus);
    assert_eq!(cpu.p, START | FLAG_Z | FLAG_C);
    cpu.step(&mut bus);
    assert_eq!(cpu.p, START | FLAG_N);
    assert_eq!(cpu.a, 0x10);
}

#[test]
fn branch_cycles() {
    // LDA #0 ; BNE +5 (not taken) ; BEQ +2 (taken, same page)
    let (mut cpu, mut bus) = nes(&[(0x8000, &[0xA9, 0x00, 0xD0, 0x05, 0xF0, 0x02])]);
    cpu.step(&mut bus);
    assert_eq!(cpu.step(&mut bus), 2);
    assert_eq!(cpu.pc, 0x8004);
    assert_eq!(cpu.step(&mut bus), 3);
    assert_eq!(cpu.pc, 0x8008);
    // JMP $80F9 ; at $80F9: LDA #0 ; BEQ +$10 (crosses to page $81)
    let (mut cpu, mut bus) = nes(&[(0x8000, &[0x4C, 0xF9, 0x80]), (0x80F9, &[0xA9, 0x00, 0xF0, 0x10])]);
    assert_eq!(cpu.step(&mut bus), 3);
    cpu.step(&mut bus);
    assert_eq!(cpu.step(&mut bus), 4);
    assert_eq!(cpu.pc, 0x810D);
    // Backwards: BNE -2 from $8002 after LDX #1
    let (mut cpu, mut bus) = nes(&[(0x8000, &[0xA2, 0x01, 0xD0, 0xFC])]);
    cpu.step(&mut bus);
    assert_eq!(cpu.step(&mut bus), 3);
    assert_eq!(cpu.pc, 0x8000);
}

#[test]
fn subroutine_call_and_return() {
    let (mut cpu, mut bus) = nes(&[(0x8000, &[0x20, 0x00, 0x90]), (0x9000, &[0x60])]);
    assert_eq!(cpu.step(&mut bus), 6);
    assert_eq!(cpu.pc, 0x9000);
    assert_eq!(cpu.sp, 0xFB);
    assert_eq!(bus.read(0x01FD), 0x80);
    assert_eq!(bus.read(0x01FC), 0x02);
    assert_eq!(cpu.step(&mut bus), 6);
    assert_eq!(cpu.pc, 0x8003);
    assert_eq!(cpu.sp, 0xFD);
}

#[test]
fn indirect_jump_wraps_within_the_page() {
    let (mut cpu, mut bus) = nes(&[(0x8000, &[0x6C, 0xFF, 0x02])]);
    bus.write(0x02FF, 0x34);
    bus.write(0x0200, 0x12);
    bus.write(0x0300, 0x56);
    assert_eq!(cpu.step(&mut bus), 5);
    assert_eq!(cpu.pc, 0x1234);
}

#[test]
fn stack_push_and_pull() {
    // LDA #$42 ; PHA ; LDA #0 ; PLA
    let (mut cpu, mut bus) = nes(&[(0x8000, &[0xA9, 0x42, 0x48, 0xA9, 0x00, 0x68])]);
    cpu.step(&mut bus);
    assert_eq!(cpu.step(&mut bus), 3);
    assert_eq!(cpu.sp, 0xFC);
    cpu.step(&mut bus);
    assert_eq!(cpu.step(&mut bus), 4);
    assert_eq!(cpu.a, 0x42);
    assert_eq!(cpu.sp, 0xFD);
    assert_eq!(cpu.p, START);
}

#[test]
fn status_push_sets_b_and_pull_clears_it() {
    // PHP ; PLP
    let (mut cpu, mut bus) = nes(&[(0x8000, &[0x08, 0x28])]);
    cpu.step(&mut bus);
    assert_eq!(bus.read(0x01FD), START | 0x10);
    cpu.step(&mut bus);
    assert_eq!(cpu.p, START);
}

#[test]
fn push_writes_below_the_stack_pointer() {
    let (mut cpu, mut bus) = nes(&[]);
    cpu.push(&mut bus, 0x99);
    assert_eq!(cpu.sp, 0xFC);
    assert_eq!(bus.read(0x01FD), 0x99);
}

#[test]
fn memory_operations() {
    // LDA #$7F ; STA $10 ; INC $10 ; LDX $10 ; ASL $10 ; LDY $10
    let (mut cpu, mut bus) = nes(&[(
        0x8000,
        &[0xA9, 0x7F, 0x85, 0x10, 0xE6, 0x10, 0xA6, 0x10, 0x06, 0x10, 0xA4, 0x10],
    )]);
    cpu.step(&mut bus);
    assert_eq!(cpu.step(&mut bus), 3);
    assert_eq!(cpu.step(&mut bus), 5);
    assert_eq!(cpu.step(&mut bus), 3);
    assert_eq!(cpu.x, 0x80);
    assert_eq!(cpu.step(&mut bus), 5);
    cpu.step(&mut bus);
    assert_eq!(cpu.y, 0x00);
    assert_eq!(cpu.p, START | FLAG_Z | FLAG_C);
}

#[test]
fn indexed_reads_pay_for_page_crossings() {
    // LDX #$FF ; LDA $00F1,X (crosses into page 1) ; LDA $0000,X (same page)
    let (mut cpu, mut bus) = nes(&[(0x8000, &[0xA2, 0xFF, 0xBD, 0xF1, 0x00, 0xBD, 0x00, 0x00])]);
    bus.write(0x01F0, 0x66);
    bus.write(0x00FF, 0x77);
    cpu.step(&mut bus);
    assert_eq!(cpu.step(&mut bus), 5);
    assert_eq!(cpu.a, 0x66);
    assert_eq!(cpu.step(&mut bus), 4);
    assert_eq!(cpu.a, 0x77);
}

#[test]
fn indirect_indexed_addressing() {
    // LDY #4 ; LDA ($20),Y with the pointer $0300 at $20
    let (mut cpu, mut bus) = nes(&[(0x8000, &[0xA0, 0x04, 0xB1, 0x20])]);
    bus.write(0x0020, 0x00);
    bus.write(0x0021, 0x03);
    bus.write(0x0304, 0xAB);
    cpu.step(&mut bus);
    assert_eq!(cpu.step(&mut bus), 5);
    assert_eq!(cpu.a, 0xAB);
}

#[test]
fn rotate_through_carry() {
    // SEC ; LDA #$80 ; ROL A ; ROR A ; LSR A
    let (mut cpu, mut bus) = nes(&[(0x8000, &[0x38, 0xA9, 0x80, 0x2A, 0x6A, 0x4A])]);
    cpu.step(&mut bus);
    cpu.step(&mut bus);
    cpu.step(&mut bus);
    assert_eq!(cpu.a, 0x01);
    assert_eq!(cpu.p, START | FLAG_C);
    cpu.step(&mut bus);
    assert_eq!(cpu.a, 0x80);
    assert_eq!(cpu.p, START | FLAG_C | FLAG_N);
    cpu.step(&mut bus);
    assert_eq!(cpu.a, 0x40);
    assert_eq!(cpu.p, START);
}

#[test]
fn bit_test() {
    // LDA #$01 ; BIT $10 with $10 = 0xC0
    let (mut cpu, mut bus) = nes(&[(0x8000, &[0xA9, 0x01, 0x24, 0x10])]);
    bus.write(0x0010, 0xC0);
    cpu.step(&mut bus);
    assert_eq!(cpu.step(&mut bus), 3);
    assert_eq!(cpu.p, START | FLAG_Z | FLAG_V | FLAG_N);
}

#[test]
fn cli_clears_interrupt_disable_and_keeps_carry() {
    // SEC ; CLI
    let (mut cpu, mut bus) = nes(&[(0x8000, &[0x38, 0x58])]);
    assert_ne!(START & FLAG_I, 0);
    cpu.step(&mut bus);
    assert_eq!(cpu.step(&mut bus), 2);
    assert_eq!(cpu.p, (START & !FLAG_I) | FLAG_C);
    assert_eq!(cpu.pc, 0x8002);
}

#[test]
fn txs_leaves_the_flags_alone() {
    // LDX #0 ; TXS
    let (mut cpu, mut bus) = nes(&[(0x8000, &[0xA2, 0x00, 0x9A])]);
    cpu.step(&mut bus);
    let p = cpu.p;
    assert_eq!(cpu.step(&mut bus), 2);
    assert_eq!(cpu.sp, 0);
    assert_eq!(cpu.p, p);
    assert_eq!(p, START | FLAG_Z);
}

#[test]
fn opcode_bc_loads_y_indexed_by_x() {
    // LDX #1 ; $BC $0010
    let (mut cpu, mut bus) = nes(&[(0x8000, &[0xA2, 0x01, 0xBC, 0x10, 0x00])]);
    bus.write(0x0011, 0x77);
    cpu.step(&mut bus);
    assert_eq!(cpu.step(&mut bus), 4);
    assert_eq!(cpu.y, 0x77);
}

#[test]
fn unimplemented_opcode_takes_no_cycles() {
    let (mut cpu, mut bus) = nes(&[(0x8000, &[0x02])]);
    assert_eq!(cpu.step(&mut bus), 0);
    assert_eq!(cpu.pc, 0x8001);
}

#[test]
fn ram_is_mirrored_every_2k() {
    let (_, mut bus) = nes(&[]);
    bus.write(0x0005, 0x12);
    assert_eq!(bus.read(0x0805), 0x12);
    assert_eq!(bus.read(0x1805), 0x12);
    bus.write(0x1FFF, 0x34);
    assert_eq!(bus.read(0x07FF), 0x34);
}

#[test]
fn status_keeps_bit_5_set_and_b_clear() {
    // LDA #$FF ; PHA ; PLP ; LDA #$00 ; PHA ; PLP
    let (mut cpu, mut bus) = nes(&[(0x8000, &[0xA9, 0xFF, 0x48, 0x28, 0xA9, 0x00, 0x48, 0x28])]);
    for _ in 0..3 {
        cpu.step(&mut bus);
        assert_eq!(cpu.p & 0x30, 0x20);
    }
    assert_eq!(cpu.p, 0xEF);
    for _ in 0..3 {
        cpu.step(&mut bus);
        assert_eq!(cpu.p & 0x30, 0x20);
    }
    assert_eq!(cpu.p, 0x20);
}
