use kisel::cpu::{Cpu, C_FLAG, H_FLAG, N_FLAG, Z_FLAG};
use kisel::mmu::Mmu;

fn machine(program: &[u8]) -> (Cpu, Mmu) {
    let mut rom = vec![0u8; 0x8000];
    rom[0x100..0x100 + program.len()].copy_from_slice(program);
    let mut mmu = Mmu::new();
    mmu.load_rom(&rom);
    (Cpu::new(), mmu)
}

#[test]
fn new_cpu_has_post_boot_registers() {
    let cpu = Cpu::new();
    assert_eq!(cpu.get_af(), 0x01B0);
    assert_eq!(cpu.get_bc(), 0x0013);
    assert_eq!(cpu.get_de(), 0x00D8);
    assert_eq!(cpu.get_hl(), 0x014D);
    assert_eq!(cpu.pc, 0x0100);
    assert_eq!(cpu.sp, 0xFFFE);
    assert!(!cpu.ime);
    assert!(cpu.get_z() && !cpu.get_n() && cpu.get_h() && cpu.get_c());
}

#[test]
fn register_pairs_read_back() {
    let mut cpu = Cpu::new();
    cpu.set_bc(0x1234);
    cpu.set_de(0xBEEF);
    cpu.set_hl(0x0F0F);
    assert_eq!((cpu.b, cpu.c), (0x12, 0x34));
    assert_eq!(cpu.get_bc(), 0x1234);
    assert_eq!(cpu.get_de(), 0xBEEF);
    assert_eq!(cpu.get_hl(), 0x0F0F);
}

#[test]
fn af_drops_the_low_flag_nibble() {
    let mut cpu = Cpu::new();
    cpu.set_af(0xABCD);
    assert_eq!(cpu.a, 0xAB);
    assert_eq!(cpu.f, 0xC0);
    assert_eq!(cpu.get_af(), 0xABC0);
}

#[test]
fn flags_set_and_read_back() {
    let mut cpu = Cpu::new();
    cpu.set_flags(false, true, false, true);
    assert_eq!(cpu.f, N_FLAG | C_FLAG);
    cpu.set_z(true);
    cpu.set_c(false);
    cpu.set_h(true);
    cpu.set_n(false);
    assert_eq!(cpu.f, Z_FLAG | H_FLAG);
    assert!(cpu.get_z() && !cpu.get_n() && cpu.get_h() && !cpu.get_c());
}

#[test]
fn load_immediate_and_add() {
    // LD A,5 ; LD B,3 ; ADD A,B
    let (mut cpu, mut mmu) = machine(&[0x3E, 0x05, 0x06, 0x03, 0x80]);
    assert_eq!(cpu.step(&mut mmu), 8);
    assert_eq!(cpu.step(&mut mmu), 8);
    assert_eq!(cpu.step(&mut mmu), 4);
    assert_eq!(cpu.a, 8);
    assert_eq!(cpu.b, 3);
    assert_eq!(cpu.f, 0x00);
    assert_eq!(cpu.pc, 0x105);
}

#[test]
fn add_sets_half_carry_carry_and_zero() {
    // LD A,0xFF ; LD B,1 ; ADD A,B
    let (mut cpu, mut mmu) = machine(&[0x3E, 0xFF, 0x06, 0x01, 0x80]);
    cpu.step(&mut mmu);
    cpu.step(&mut mmu);
    cpu.step(&mut mmu);
    assert_eq!(cpu.a, 0);
    assert_eq!(cpu.f, Z_FLAG | H_FLAG | C_FLAG);
}

#[test]
fn xor_a_clears_a_and_sets_zero() {
    let (mut cpu, mut mmu) = machine(&[0xAF]);
    assert_eq!(cpu.step(&mut mmu), 4);
    assert_eq!(cpu.a, 0);
    assert_eq!(cpu.f, Z_FLAG);
}

#[test]
fn compare_immediate() {
    // LD A,0x10 ; CP 0x10 ; CP 0x20
    let (mut cpu, mut mmu) = machine(&[0x3E, 0x10, 0xFE, 0x10, 0xFE, 0x20]);
    cpu.step(&mut mmu);
    assert_eq!(cpu.step(&mut mmu), 8);
    assert_eq!(cpu.f, Z_FLAG | N_FLAG);
    cpu.step(&mut mmu);
    assert_eq!(cpu.f, N_FLAG | C_FLAG);
    assert_eq!(cpu.a, 0x10);
}

#[test]
fn jump_absolute() {
    let (mut cpu, mut mmu) = machine(&[0xC3, 0x00, 0x02]);
    assert_eq!(cpu.step(&mut mmu), 16);
    assert_eq!(cpu.pc, 0x0200);
}

#[test]
fn call_and_return() {
    let mut program = vec![0u8; 0x101];
    program[0] = 0xCD; // CALL 0x0200
    program[1] = 0x00;
    program[2] = 0x02;
    program[0x100] = 0xC9; // RET at 0x0200
    let (mut cpu, mut mmu) = machine(&program);
    assert_eq!(cpu.step(&mut mmu), 24);
    assert_eq!(cpu.pc, 0x0200);
    assert_eq!(cpu.sp, 0xFFFC);
    assert_eq!(mmu.read_byte(0xFFFD), 0x01);
    assert_eq!(mmu.read_byte(0xFFFC), 0x03);
    assert_eq!(cpu.step(&mut mmu), 16);
    assert_eq!(cpu.pc, 0x0103);
    assert_eq!(cpu.sp, 0xFFFE);
}

#[test]
fn push_and_pop_af_masks_flags() {
    // PUSH AF ; POP AF, with 0x1F planted as the flags byte in between
    let (mut cpu, mut mmu) = machine(&[0xF5, 0xF1]);
    assert_eq!(cpu.step(&mut mmu), 16);
    assert_eq!(cpu.sp, 0xFFFC);
    assert_eq!(mmu.read_byte(0xFFFD), 0x01);
    mmu.write_byte(0xFFFC, 0x1F);
    assert_eq!(cpu.step(&mut mmu), 12);
    assert_eq!(cpu.a, 0x01);
    assert_eq!(cpu.f, 0x10);
    assert_eq!(cpu.sp, 0xFFFE);
}

#[test]
fn swap_nibbles_of_a() {
    // LD A,0xF1 ; SWAP A
    let (mut cpu, mut mmu) = machine(&[0x3E, 0xF1, 0xCB, 0x37]);
    cpu.step(&mut mmu);
    assert_eq!(cpu.step(&mut mmu), 12);
    assert_eq!(cpu.a, 0x1F);
    assert_eq!(cpu.f, 0);
}

#[test]
fn decimal_adjust_after_addition() {
    // LD A,0x15 ; LD B,0x27 ; ADD A,B ; DAA  ->  15 + 27 = 42 in BCD
    let (mut cpu, mut mmu) = machine(&[0x3E, 0x15, 0x06, 0x27, 0x80, 0x27]);
    for _ in 0..4 {
        cpu.step(&mut mmu);
    }
    assert_eq!(cpu.a, 0x42);
    assert!(!cpu.get_c());
}

#[test]
fn increment_keeps_carry() {
    // LD A,0x0F ; INC A
    let (mut cpu, mut mmu) = machine(&[0x3E, 0x0F, 0x3C]);
    cpu.set_c(true);
    cpu.step(&mut mmu);
    assert_eq!(cpu.step(&mut mmu), 4);
    assert_eq!(cpu.a, 0x10);
    assert_eq!(cpu.f, H_FLAG | C_FLAG);
}

#[test]
fn undefined_opcode_stops() {
    let (mut cpu, mut mmu) = machine(&[0xD3]);
    assert_eq!(cpu.step(&mut mmu), 0);
}

#[test]
fn pc_in_cartridge_ram_window_stops() {
    let (mut cpu, mut mmu) = machine(&[0x00]);
    cpu.pc = 0x9000;
    assert_eq!(cpu.step(&mut mmu), 0);
    assert_eq!(cpu.pc, 0x9000);
}

#[test]
fn interrupt_is_taken_when_enabled() {
    let (mut cpu, mut mmu) = machine(&[0x00]);
    cpu.ime = true;
    mmu.write_byte(0xFFFF, 0x01);
    mmu.write_byte(0xFF0F, 0x01);
    assert_eq!(cpu.step(&mut mmu), 20);
    assert_eq!(cpu.pc, 0x0040);
    assert!(!cpu.ime);
    assert_eq!(cpu.sp, 0xFFFC);
    assert_eq!(mmu.read_byte(0xFF0F), 0x00);
    assert_eq!(mmu.read_byte(0xFFFD), 0x01);
    assert_eq!(mmu.read_byte(0xFFFC), 0x00);
}

#[test]
fn steps_keep_flag_low_nibble_and_whole_machine_cycles() {
    // LD A,0xFF ; ADD A,B ; XOR A ; CP 1 ; PUSH AF ; POP AF ; SWAP A
    let (mut cpu, mut mmu) = machine(&[0x3E, 0xFF, 0x80, 0xAF, 0xFE, 0x01, 0xF5, 0xF1, 0xCB, 0x37]);
    for _ in 0..7 {
        let n = cpu.step(&mut mmu);
        assert!(n > 0 && n % 4 == 0 && n <= 24);
        assert_eq!(cpu.f & 0x0F, 0);
    }
}

#[test]
fn flat_memory_reads_back_and_rom_is_read_only() {
    let (_, mut mmu) = machine(&[0x12]);
    mmu.write_byte(0xC000, 0x34);
    assert_eq!(mmu.read_byte(0xC000), 0x34);
    mmu.write_byte(0x0100, 0x99);
    assert_eq!(mmu.read_byte(0x0100), 0x12);
}

#[test]
fn flat_memory_serial_and_dma() {
    let (_, mut mmu) = machine(&[]);
    mmu.write_byte(0xFF01, b'k');
    mmu.write_byte(0xFF02, 0x81);
    assert_eq!(mmu.take_serial(), vec![b'k']);
    mmu.write_byte(0xC005, 0x77);
    mmu.write_byte(0xFF46, 0xC0);
    assert_eq!(mmu.read_byte(0xFE05), 0x77);
}

#[test]
fn hl_increment_and_decrement_loads() {
    // LD HL,0xC000 ; LD A,0x42 ; LD (HL+),A ; LD A,(HL-)
    let (mut cpu, mut mmu) = machine(&[0x21, 0x00, 0xC0, 0x3E, 0x42, 0x22, 0x3A]);
    assert_eq!(cpu.step(&mut mmu), 12);
    cpu.step(&mut mmu);
    assert_eq!(cpu.step(&mut mmu), 8);
    assert_eq!(mmu.read_byte(0xC000), 0x42);
    assert_eq!(cpu.get_hl(), 0xC001);
    assert_eq!(cpu.step(&mut mmu), 8);
    assert_eq!(cpu.a, 0x00);
    assert_eq!(cpu.get_hl(), 0xC000);
}

#[test]
fn bit_and_res_prefixed_opcodes() {
    // LD A,0x01 ; BIT 7,A ; RES 0,A
    let (mut cpu, mut mmu) = machine(&[0x3E, 0x01, 0xCB, 0x7F, 0xCB, 0x87]);
    cpu.set_c(false);
    cpu.step(&mut mmu);
    assert_eq!(cpu.step(&mut mmu), 12);
    assert_eq!(cpu.f, Z_FLAG | H_FLAG);
    assert_eq!(cpu.step(&mut mmu), 12);
    assert_eq!(cpu.a, 0x00);
}

#[test]
fn subtract_then_subtract_with_carry() {
    // LD A,5 ; LD B,7 ; SUB B ; SBC A,B
    let (mut cpu, mut mmu) = machine(&[0x3E, 0x05, 0x06, 0x07, 0x90, 0x98]);
    cpu.step(&mut mmu);
    cpu.step(&mut mmu);
    assert_eq!(cpu.step(&mut mmu), 4);
    assert_eq!(cpu.a, 0xFE);
    assert_eq!(cpu.f, N_FLAG | H_FLAG | C_FLAG);
    assert_eq!(cpu.step(&mut mmu), 4);
    assert_eq!(cpu.a, 0xF6);
    assert_eq!(cpu.f, N_FLAG);
}

#[test]
fn high_page_loads_and_stores() {
    // LD A,0x5C ; LDH (0x80),A ; LD A,0 ; LDH A,(0x80)
    let (mut cpu, mut mmu) = machine(&[0x3E, 0x5C, 0xE0, 0x80, 0x3E, 0x00, 0xF0, 0x80]);
    cpu.step(&mut mmu);
    assert_eq!(cpu.step(&mut mmu), 12);
    assert_eq!(mmu.read_byte(0xFF80), 0x5C);
    cpu.step(&mut mmu);
    assert_eq!(cpu.step(&mut mmu), 12);
    assert_eq!(cpu.a, 0x5C);
}

#[test]
fn load_l_from_h() {
    // LD L,H
    let (mut cpu, mut mmu) = machine(&[0x6C]);
    cpu.a = 0x22;
    assert_eq!(cpu.step(&mut mmu), 4);
    assert_eq!((cpu.h, cpu.l, cpu.a), (0x01, 0x01, 0x22));
    assert_eq!(cpu.f, 0xB0);
    assert_eq!(cpu.pc, 0x0101);
}

#[test]
fn every_register_load_copies_its_source() {
    // LD C,B ; LD E,L ; LD H,E ; LD A,A
    let (mut cpu, mut mmu) = machine(&[0x48, 0x5D, 0x63, 0x7F]);
    for _ in 0..4 {
        assert_eq!(cpu.step(&mut mmu), 4);
    }
    assert_eq!((cpu.c, cpu.e, cpu.h, cpu.a), (0x00, 0x4D, 0x4D, 0x01));
}

#[test]
fn set_and_complement_carry() {
    // SCF ; CCF ; CCF
    let (mut cpu, mut mmu) = machine(&[0x37, 0x3F, 0x3F]);
    assert_eq!(cpu.step(&mut mmu), 4);
    assert_eq!(cpu.f, Z_FLAG | C_FLAG);
    assert_eq!(cpu.step(&mut mmu), 4);
    assert_eq!(cpu.f, Z_FLAG);
    cpu.step(&mut mmu);
    assert_eq!(cpu.f, Z_FLAG | C_FLAG);
}

#[test]
fn accumulator_rotates() {
    // LD A,0x81 ; RRCA ; RLA ; RRA
    let (mut cpu, mut mmu) = machine(&[0x3E, 0x81, 0x0F, 0x17, 0x1F]);
    cpu.step(&mut mmu);
    assert_eq!(cpu.step(&mut mmu), 4);
    assert_eq!((cpu.a, cpu.f), (0xC0, C_FLAG));
    assert_eq!(cpu.step(&mut mmu), 4);
    assert_eq!((cpu.a, cpu.f), (0x81, C_FLAG));
    assert_eq!(cpu.step(&mut mmu), 4);
    assert_eq!((cpu.a, cpu.f), (0xC0, C_FLAG));
}

#[test]
fn prefixed_rotates_shifts_and_set() {
    // LD B,0x81 ; RLC B ; RL B ; SRA B ; SET 7,B ; RR B ; SLA B ; RRC B
    let (mut cpu, mut mmu) = machine(&[
        0x06, 0x81, 0xCB, 0x00, 0xCB, 0x10, 0xCB, 0x28, 0xCB, 0xF8, 0xCB, 0x18, 0xCB, 0x20, 0xCB,
        0x08,
    ]);
    cpu.step(&mut mmu);
    assert_eq!(cpu.step(&mut mmu), 12);
    assert_eq!((cpu.b, cpu.f), (0x03, C_FLAG));
    cpu.step(&mut mmu);
    assert_eq!((cpu.b, cpu.f), (0x07, 0));
    cpu.step(&mut mmu);
    assert_eq!((cpu.b, cpu.f), (0x03, C_FLAG));
    assert_eq!(cpu.step(&mut mmu), 12);
    assert_eq!((cpu.b, cpu.f), (0x83, C_FLAG));
    cpu.step(&mut mmu);
    assert_eq!((cpu.b, cpu.f), (0xC1, C_FLAG));
    cpu.step(&mut mmu);
    assert_eq!((cpu.b, cpu.f), (0x82, C_FLAG));
    cpu.step(&mut mmu);
    assert_eq!((cpu.b, cpu.f), (0x41, 0));
}

#[test]
fn prefixed_operations_on_memory() {
    // LD HL,0xC000 ; SET 0,(HL) ; BIT 0,(HL) ; SRL (HL)
    let (mut cpu, mut mmu) = machine(&[0x21, 0x00, 0xC0, 0xCB, 0xC6, 0xCB, 0x46, 0xCB, 0x3E]);
    cpu.step(&mut mmu);
    assert_eq!(cpu.step(&mut mmu), 20);
    assert_eq!(mmu.read_byte(0xC000), 0x01);
    assert_eq!(cpu.step(&mut mmu), 16);
    assert!(!cpu.get_z());
    assert_eq!(cpu.step(&mut mmu), 20);
    assert_eq!(mmu.read_byte(0xC000), 0x00);
    assert_eq!(cpu.f, Z_FLAG | C_FLAG);
}

#[test]
fn conditional_calls() {
    // CALL NZ,0x0200 (Z is set: not taken) ; CALL Z,0x0200
    let (mut cpu, mut mmu) = machine(&[0xC4, 0x00, 0x02, 0xCC, 0x00, 0x02]);
    assert_eq!(cpu.step(&mut mmu), 12);
    assert_eq!(cpu.pc, 0x0103);
    assert_eq!(cpu.sp, 0xFFFE);
    assert_eq!(cpu.step(&mut mmu), 24);
    assert_eq!(cpu.pc, 0x0200);
    assert_eq!(cpu.sp, 0xFFFC);
    assert_eq!(mmu.read_byte(0xFFFD), 0x01);
    assert_eq!(mmu.read_byte(0xFFFC), 0x06);
}

#[test]
fn stack_pointer_arithmetic() {
    // ADD SP,-2 ; LD HL,SP+2 ; LD SP,HL
    let (mut cpu, mut mmu) = machine(&[0xE8, 0xFE, 0xF8, 0x02, 0xF9]);
    assert_eq!(cpu.step(&mut mmu), 16);
    assert_eq!(cpu.sp, 0xFFFC);
    assert_eq!(cpu.f, H_FLAG | C_FLAG);
    assert_eq!(cpu.step(&mut mmu), 12);
    assert_eq!(cpu.get_hl(), 0xFFFE);
    assert_eq!(cpu.f, 0);
    assert_eq!(cpu.step(&mut mmu), 8);
    assert_eq!(cpu.sp, 0xFFFE);
}

#[test]
fn store_stack_pointer_at_address() {
    // LD (0xC000),SP
    let (mut cpu, mut mmu) = machine(&[0x08, 0x00, 0xC0]);
    assert_eq!(cpu.step(&mut mmu), 20);
    assert_eq!(mmu.read_byte(0xC000), 0xFE);
    assert_eq!(mmu.read_byte(0xC001), 0xFF);
    assert_eq!(cpu.pc, 0x0103);
}

#[test]
fn add_with_carry_immediate_and_add_hl_hl() {
    // LD A,1 ; SCF ; ADC A,1 ; ADD HL,HL
    let (mut cpu, mut mmu) = machine(&[0x3E, 0x01, 0x37, 0xCE, 0x01, 0x29]);
    cpu.step(&mut mmu);
    cpu.step(&mut mmu);
    assert_eq!(cpu.step(&mut mmu), 8);
    assert_eq!((cpu.a, cpu.f), (0x03, 0));
    assert_eq!(cpu.step(&mut mmu), 8);
    assert_eq!(cpu.get_hl(), 0x029A);
    assert_eq!(cpu.f, 0);
}

#[test]
fn stop_skips_its_operand_and_high_page_read_through_c() {
    // STOP ; LD A,(0xFF00+C)
    let (mut cpu, mut mmu) = machine(&[0x10, 0x00, 0xF2]);
    cpu.c = 0x80;
    mmu.write_byte(0xFF80, 0x77);
    assert_eq!(cpu.step(&mut mmu), 4);
    assert_eq!(cpu.pc, 0x0102);
    assert_eq!(cpu.step(&mut mmu), 8);
    assert_eq!(cpu.a, 0x77);
}

#[test]
fn decimal_adjust_gives_the_bcd_sum() {
    // LD A,0x45 ; ADD A,0x38 ; DAA  ->  45 + 38 = 83 in BCD
    let (mut cpu, mut mmu) = machine(&[0x3E, 0x45, 0xC6, 0x38, 0x27]);
    cpu.step(&mut mmu);
    assert_eq!(cpu.step(&mut mmu), 8);
    assert_eq!(cpu.step(&mut mmu), 4);
    assert_eq!(cpu.a, 0x83);
    assert_eq!(cpu.f, 0);
    assert_eq!(cpu.pc, 0x0105);
}
