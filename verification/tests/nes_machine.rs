use kisel::gui::{Pad, Ui};
use kisel::nes::cart::Cart;
use kisel::nes::cpu::{Bus, Cpu};
use kisel::nes::{pad_to_nes, run_cpu, Emu, EmuError, NesBus, RewindManager, HEIGHT, WIDTH};

fn image(mapper: u8, program: &[(u16, &[u8])], nmi: u16) -> Vec<u8> {
    let mut data = vec![0u8; 16 + 0x4000 + 0x2000];
    data[0..4].copy_from_slice(b"NES\x1A");
    data[4] = 1;
    data[5] = 1;
    data[6] = (mapper & 0x0F) << 4;
    data[7] = mapper & 0xF0;
    for (addr, bytes) in program {
        let off = 16 + (*addr as usize - 0x8000);
        data[off..off + bytes.len()].copy_from_slice(bytes);
    }
    data[16 + 0x3FFA] = nmi as u8;
    data[16 + 0x3FFB] = (nmi >> 8) as u8;
    data[16 + 0x3FFC] = 0x00;
    data[16 + 0x3FFD] = 0x80;
    data
}

fn emu(program: &[(u16, &[u8])]) -> Emu {
    Emu::load(Cart::load(&image(0, program, 0x8000)).unwrap(), false).unwrap()
}

fn no_buttons() -> Pad {
    Pad { a: false, b: false, select: false, start: false, up: false, down: false, left: false, right: false }
}

fn no_requests() -> Ui {
    Ui { debug: false, save: false, load: false, rewind: false, load_rom: false, exit: false }
}

/// INC $10 ; JMP $8000
const COUNTER: &[(u16, &[u8])] = &[(0x8000, &[0xE6, 0x10, 0x4C, 0x00, 0x80])];

#[test]
fn controller_byte_layout() {
    assert_eq!(pad_to_nes(no_buttons()), 0);
    assert_eq!(pad_to_nes(Pad { a: true, right: true, ..no_buttons() }), 0x81);
    assert_eq!(pad_to_nes(Pad { b: true, select: true, start: true, ..no_buttons() }), 0x0E);
    assert_eq!(pad_to_nes(Pad { up: true, down: true, left: true, ..no_buttons() }), 0x70);
}

#[test]
fn unsupported_mapper_is_refused() {
    let cart = Cart::load(&image(4, &[], 0x8000)).unwrap();
    match Emu::load(cart, false) {
        Err(e) => assert_eq!(e, EmuError::UnsupportedMapper(4)),
        Ok(_) => panic!("mapper 4 accepted"),
    }
}

#[test]
fn start_at_reset_vector_or_nestest_entry() {
    let e = emu(&[]);
    assert_eq!(e.cpu().pc, 0x8000);
    assert_eq!(e.pixels().len(), WIDTH * HEIGHT);
    let cart = Cart::load(&image(0, &[], 0x8000)).unwrap();
    let n = Emu::load(cart, true).unwrap();
    assert_eq!(n.cpu().pc, 0xC000);
    assert_eq!(n.frame_counter(), 0);
}

#[test]
fn frame_runs_and_records() {
    let mut e = emu(COUNTER);
    assert!(e.frame(no_buttons(), no_requests()));
    assert_eq!(e.frame_counter(), 1);
    assert_ne!(e.peek(0x0010), 0);
    // VBlank was entered and the pre-render line left it again.
    assert_eq!(e.ppu().status & 0x80, 0);
    assert_eq!(e.ppu().ly, 261);
}

#[test]
fn frame_reports_a_crash() {
    let mut e = emu(&[(0x8000, &[0x02])]);
    assert!(!e.frame(no_buttons(), no_requests()));
    assert_eq!(e.cpu().pc, 0x8001);
    assert_eq!(e.peek(e.cpu().pc - 1), 0x02);
}

#[test]
fn quick_load_returns_to_the_quick_save() {
    let mut e = emu(COUNTER);
    e.frame(no_buttons(), no_requests());
    let save = Ui { save: true, ..no_requests() };
    e.frame(no_buttons(), save);
    let after_save_frame = (e.peek(0x0010), e.cpu().pc, e.cpu().a);
    e.frame(no_buttons(), no_requests());
    assert_ne!(e.peek(0x0010), after_save_frame.0);
    let load = Ui { load: true, ..no_requests() };
    e.frame(no_buttons(), load);
    assert_eq!((e.peek(0x0010), e.cpu().pc, e.cpu().a), after_save_frame);
    // The load forgot the rewind history; this frame was recorded afresh.
    assert_eq!(e.frame_counter(), 1);
}

#[test]
fn rewind_replays_from_the_newest_snapshot() {
    let mut a = emu(COUNTER);
    let mut b = emu(COUNTER);
    for _ in 0..2 {
        a.frame(no_buttons(), no_requests());
        b.frame(no_buttons(), no_requests());
    }
    b.frame(no_buttons(), no_requests());
    let rewind = Ui { rewind: true, ..no_requests() };
    assert!(a.frame(no_buttons(), rewind));
    assert_eq!(a.peek(0x0010), b.peek(0x0010));
    assert_eq!(a.cpu().pc, b.cpu().pc);
    assert_eq!(a.frame_counter(), 2);
}

#[test]
fn nmi_runs_once_per_frame() {
    // LDA #$80 ; STA $2000 ; loop: JMP loop.  NMI at $8100: INC $30 ; RTI
    let program: &[(u16, &[u8])] = &[
        (0x8000, &[0xA9, 0x80, 0x8D, 0x00, 0x20, 0x4C, 0x05, 0x80]),
        (0x8100, &[0xE6, 0x30, 0x40]),
    ];
    let mut e = Emu::load(Cart::load(&image(0, program, 0x8100)).unwrap(), false).unwrap();
    e.frame(no_buttons(), no_requests());
    assert_eq!(e.peek(0x0030), 1);
    e.frame(no_buttons(), no_requests());
    assert_eq!(e.peek(0x0030), 2);
    assert!(e.ppu().nmi_enabled());
}

#[test]
fn controller_port_shifts_out_buttons() {
    // LDA #1 ; STA $4016 ; LDA #0 ; STA $4016 ; LDA $4016 ; STA $20 ;
    // LDA $4016 ; STA $21 ; loop
    let program: &[(u16, &[u8])] = &[(
        0x8000,
        &[
            0xA9, 0x01, 0x8D, 0x16, 0x40, 0xA9, 0x00, 0x8D, 0x16, 0x40, 0xAD, 0x16, 0x40, 0x85, 0x20,
            0xAD, 0x16, 0x40, 0x85, 0x21, 0x4C, 0x14, 0x80,
        ],
    )];
    let mut e = emu(program);
    e.frame(Pad { a: true, right: true, ..no_buttons() }, no_requests());
    assert_eq!(e.peek(0x0020), 0x41);
    assert_eq!(e.peek(0x0021), 0x40);
    assert_eq!(e.controller(), (0x81, false, 0x20));
}

#[test]
fn oam_dma_through_the_processor() {
    // LDX #0 ; loop: TXA ; STA $0200,X ; INX ; BNE loop ; LDA #2 ; STA $4014 ; JMP self
    let program: &[(u16, &[u8])] = &[(
        0x8000,
        &[0xA2, 0x00, 0x8A, 0x9D, 0x00, 0x02, 0xE8, 0xD0, 0xF9, 0xA9, 0x02, 0x8D, 0x14, 0x40, 0x4C, 0x0E, 0x80],
    )];
    let mut e = emu(program);
    e.frame(no_buttons(), no_requests());
    for i in 0..256usize {
        assert_eq!(e.ppu().oam[i], i as u8);
    }
    assert_eq!(e.ppu().oam_addr, 0);
}

#[test]
fn run_cpu_spends_dma_stall_first() {
    let cart = Cart::load(&image(0, &[(0x8000, &[0x4C, 0x00, 0x80])], 0x8000)).unwrap();
    let mut bus = NesBus::new(cart);
    let mut cpu = Cpu::new();
    cpu.reset(&mut bus);
    bus.write(0x4014, 0x00);
    assert!(run_cpu(&mut cpu, &mut bus, 113));
    // 513 stall cycles: the first 113 are all stall, so no instruction ran.
    assert_eq!(cpu.pc, 0x8000);
}

#[test]
fn bus_state_round_trip() {
    let cart = Cart::load(&image(0, &[], 0x8000)).unwrap();
    let mut bus = NesBus::new(cart);
    let mut cpu = Cpu::new();
    bus.write(0x0042, 7);
    cpu.a = 0x11;
    cpu.pc = 0x1234;
    let state = bus.capture_state(&cpu);
    assert_eq!(state.ram[0x42], 7);
    assert_eq!(state.cpu_pc, 0x1234);
    bus.write(0x0042, 9);
    cpu.a = 0;
    cpu.pc = 0;
    bus.load_state(&mut cpu, &state);
    assert_eq!(bus.read(0x0042), 7);
    assert_eq!((cpu.a, cpu.pc), (0x11, 0x1234));
    assert_eq!(bus.peek(0x0042), 7);
}

#[test]
fn rewind_buffer_keeps_the_newest_snapshots() {
    let cart = Cart::load(&image(0, &[], 0x8000)).unwrap();
    let bus = NesBus::new(cart);
    let mut cpu = Cpu::new();
    // One second, a snapshot every 20 frames: room for 3.
    let mut r = RewindManager::new(1, 20);
    for frame in 1..=100u16 {
        cpu.pc = frame;
        r.record(bus.capture_state(&cpu));
    }
    assert_eq!(r.frame_counter(), 100);
    assert_eq!(r.pop_prev().map(|s| s.cpu_pc), Some(100));
    assert_eq!(r.pop_prev().map(|s| s.cpu_pc), Some(80));
    assert_eq!(r.pop_prev().map(|s| s.cpu_pc), Some(60));
    assert!(r.pop_prev().is_none());
    r.record(bus.capture_state(&cpu));
    r.clear();
    assert_eq!(r.frame_counter(), 0);
    assert!(r.pop_prev().is_none());
}

#[test]
fn rewind_buffer_with_zero_interval_keeps_nothing() {
    let cart = Cart::load(&image(0, &[], 0x8000)).unwrap();
    let bus = NesBus::new(cart);
    let cpu = Cpu::new();
    let mut r = RewindManager::new(1, 0);
    r.record(bus.capture_state(&cpu));
    assert!(r.pop_prev().is_none());
}

#[test]
fn cleared_rewind_buffer_behaves_like_a_new_one() {
    let cart = Cart::load(&image(0, &[], 0x8000)).unwrap();
    let bus = NesBus::new(cart);
    let mut cpu = Cpu::new();
    let mut used = RewindManager::new(1, 20);
    for frame in 1..=45u16 {
        cpu.pc = frame;
        used.record(bus.capture_state(&cpu));
    }
    used.pop_prev();
    used.clear();
    let mut fresh = RewindManager::new(1, 20);
    for frame in 1..=130u16 {
        cpu.pc = 1000 + frame;
        used.record(bus.capture_state(&cpu));
        fresh.record(bus.capture_state(&cpu));
    }
    assert_eq!(used.frame_counter(), fresh.frame_counter());
    for _ in 0..4 {
        let a = used.pop_prev().map(|s| s.cpu_pc);
        let b = fresh.pop_prev().map(|s| s.cpu_pc);
        assert_eq!(a, b);
    }
}

#[test]
fn uxrom_bank_switch_through_the_bus() {
    // Mapper 2 with four PRG banks; the first byte of each bank holds its number.
    let mut data = vec![0u8; 16 + 4 * 0x4000 + 0x2000];
    data[0..4].copy_from_slice(b"NES\x1A");
    data[4] = 4;
    data[5] = 1;
    data[6] = 0x20;
    for b in 0..4 {
        data[16 + b * 0x4000] = b as u8;
    }
    let mut bus = NesBus::new(Cart::load(&data).unwrap());
    assert_eq!(bus.read(0x8000), 0);
    assert_eq!(bus.read(0xC000), 3);
    bus.write(0x8000, 2);
    assert_eq!(bus.read(0x8000), 2);
    assert_eq!(bus.read(0xC000), 3);
}
