use gbcore::gameboy::GameBoy;
use gbcore::joypad::Button;

/// A 32 KiB ROM-only cartridge with `code` at the entry point 0x0100 and
/// `isr` at the VBlank vector 0x0040.
fn rom_with(code: &[u8], isr: &[u8]) -> Vec<u8> {
    let mut rom = vec![0u8; 0x8000];
    rom[0x40..0x40 + isr.len()].copy_from_slice(isr);
    rom[0x100..0x100 + code.len()].copy_from_slice(code);
    rom
}

fn run_steps(gb: &mut GameBoy, n: usize) {
    for _ in 0..n {
        gb.step();
    }
}

#[test]
fn selftest_rom_renders_expected_pixel() {
    // LD A,0xFF ; LDH (0x47),A ; JR -2
    let rom = rom_with(&[0x3E, 0xFF, 0xE0, 0x47, 0x18, 0xFE], &[]);
    let mut gb = GameBoy::new(rom);
    for _ in 0..5 {
        gb.run_frame();
    }
    let idx = 0;
    let px = &gb.mmu.ppu.framebuffer[idx..idx + 4];
    assert_eq!(px, &[0x08, 0x18, 0x20, 255]);
}

#[test]
fn irq_and_halt_resume_every_frame() {
    let code = [
        0xF3, // DI
        0x31, 0xFE, 0xFF, // LD SP,0xFFFE
        0x3E, 0x01, // LD A,1
        0xE0, 0xFF, // LDH (IE),A  -- VBlank only
        0xAF, // XOR A
        0xEA, 0x00, 0xC0, // LD (0xC000),A
        0xE0, 0x0F, // LDH (IF),A
        0xFB, // EI
        0x76, // loop: HALT
        0x00, // NOP
        0x18, 0xFC, // JR loop
    ];
    let isr = [
        0xFA, 0x00, 0xC0, // LD A,(0xC000)
        0x3C, // INC A
        0xEA, 0x00, 0xC0, // LD (0xC000),A
        0xD9, // RETI
    ];
    let mut gb = GameBoy::new(rom_with(&code, &isr));
    for i in 1..=10 {
        gb.run_frame();
        let counter = gb.mmu.read(0xC000);
        assert_eq!(counter as i32, i);
    }
}

#[test]
fn joypad_reflects_button_state() {
    let mut gb = GameBoy::new(rom_with(&[0x18, 0xFE], &[]));
    gb.mmu.joypad.write(0x20); // select direction keys
    assert_eq!(gb.mmu.joypad.read() & 0x0F, 0x0F);
    gb.mmu.joypad.set(Button::Right, true);
    assert_eq!(gb.mmu.joypad.read() & 0x0F, 0x0E);
    gb.mmu.joypad.set(Button::Right, false);
    assert_eq!(gb.mmu.joypad.read() & 0x0F, 0x0F);
}

#[test]
fn boot_register_state() {
    let gb = GameBoy::new(rom_with(&[], &[]));
    assert_eq!((gb.cpu.a, gb.cpu.f, gb.cpu.b, gb.cpu.c), (0x01, 0xB0, 0x00, 0x13));
    assert_eq!((gb.cpu.d, gb.cpu.e, gb.cpu.h, gb.cpu.l), (0x00, 0xD8, 0x01, 0x4D));
    assert_eq!((gb.cpu.sp, gb.cpu.pc), (0xFFFE, 0x0100));
    assert!(!gb.cpu.ime);
}

#[test]
fn add_sets_zero_half_and_carry() {
    // LD A,0x3A ; LD B,0xC6 ; ADD A,B
    let mut gb = GameBoy::new(rom_with(&[0x3E, 0x3A, 0x06, 0xC6, 0x80], &[]));
    run_steps(&mut gb, 3);
    assert_eq!(gb.cpu.a, 0x00);
    assert_eq!(gb.cpu.f, 0xB0);
}

#[test]
fn cp_keeps_a_and_sub_stores() {
    // LD A,0x3E ; CP 0x40 ; SUB 0x3E
    let mut gb = GameBoy::new(rom_with(&[0x3E, 0x3E, 0xFE, 0x40, 0xD6, 0x3E], &[]));
    run_steps(&mut gb, 2);
    assert_eq!(gb.cpu.a, 0x3E);
    assert_eq!(gb.cpu.f, 0x50);
    run_steps(&mut gb, 1);
    assert_eq!(gb.cpu.a, 0x00);
    assert_eq!(gb.cpu.f, 0xC0);
}

#[test]
fn adc_and_sbc_use_carry() {
    // SCF ; LD A,0x0F ; ADC A,0x00 ; SCF ; SBC A,0x0F
    let mut gb = GameBoy::new(rom_with(&[0x37, 0x3E, 0x0F, 0xCE, 0x00, 0x37, 0xDE, 0x0F], &[]));
    run_steps(&mut gb, 3);
    assert_eq!(gb.cpu.a, 0x10);
    assert_eq!(gb.cpu.f, 0x20);
    run_steps(&mut gb, 2);
    // 0x10 - 0x0F - 1 = 0
    assert_eq!(gb.cpu.a, 0x00);
    assert_eq!(gb.cpu.f, 0xE0);
}

#[test]
fn xor_a_clears_a_and_sets_z() {
    // LD A,0x5A ; XOR A
    let mut gb = GameBoy::new(rom_with(&[0x3E, 0x5A, 0xAF], &[]));
    run_steps(&mut gb, 2);
    assert_eq!(gb.cpu.a, 0);
    assert_eq!(gb.cpu.f, 0x80);
}

#[test]
fn daa_adjusts_bcd_addition() {
    // LD A,0x45 ; ADD A,0x38 ; DAA
    let mut gb = GameBoy::new(rom_with(&[0x3E, 0x45, 0xC6, 0x38, 0x27], &[]));
    run_steps(&mut gb, 3);
    assert_eq!(gb.cpu.a, 0x83);
    assert_eq!(gb.cpu.f & 0x90, 0x00);
}

#[test]
fn swap_twice_restores() {
    // LD A,0xF1 ; SWAP A ; SWAP A
    let mut gb = GameBoy::new(rom_with(&[0x3E, 0xF1, 0xCB, 0x37, 0xCB, 0x37], &[]));
    run_steps(&mut gb, 2);
    assert_eq!(gb.cpu.a, 0x1F);
    assert_eq!(gb.cpu.f, 0x00);
    run_steps(&mut gb, 1);
    assert_eq!(gb.cpu.a, 0xF1);
}

#[test]
fn rlca_then_rrca_restores() {
    // LD A,0x85 ; RLCA ; RRCA
    let mut gb = GameBoy::new(rom_with(&[0x3E, 0x85, 0x07, 0x0F], &[]));
    run_steps(&mut gb, 2);
    assert_eq!(gb.cpu.a, 0x0B);
    assert_eq!(gb.cpu.f, 0x10);
    run_steps(&mut gb, 1);
    assert_eq!(gb.cpu.a, 0x85);
    assert_eq!(gb.cpu.f, 0x10);
}

#[test]
fn bit_set_res() {
    // LD A,0 ; SET 0,A ; BIT 0,A ; RES 0,A ; BIT 0,A
    let mut gb = GameBoy::new(rom_with(&[0x3E, 0x00, 0xCB, 0xC7, 0xCB, 0x47, 0xCB, 0x87, 0xCB, 0x47], &[]));
    run_steps(&mut gb, 2);
    assert_eq!(gb.cpu.a, 1);
    run_steps(&mut gb, 1);
    assert_eq!(gb.cpu.f & 0x80, 0);
    run_steps(&mut gb, 2);
    assert_eq!(gb.cpu.a, 0);
    assert_eq!(gb.cpu.f & 0xE0, 0xA0);
}

#[test]
fn push_pop_round_trip() {
    // LD SP,0xDFF0 ; LD BC,0x1234 ; PUSH BC ; POP DE
    let mut gb = GameBoy::new(rom_with(&[0x31, 0xF0, 0xDF, 0x01, 0x34, 0x12, 0xC5, 0xD1], &[]));
    run_steps(&mut gb, 3);
    assert_eq!(gb.cpu.sp, 0xDFEE);
    assert_eq!(gb.mmu.read(0xDFEF), 0x12);
    assert_eq!(gb.mmu.read(0xDFEE), 0x34);
    run_steps(&mut gb, 1);
    assert_eq!((gb.cpu.d, gb.cpu.e), (0x12, 0x34));
    assert_eq!(gb.cpu.sp, 0xDFF0);
}

#[test]
fn pop_af_clears_low_flag_bits() {
    // LD SP,0xDFF0 ; LD BC,0x12FF ; PUSH BC ; POP AF
    let mut gb = GameBoy::new(rom_with(&[0x31, 0xF0, 0xDF, 0x01, 0xFF, 0x12, 0xC5, 0xF1], &[]));
    run_steps(&mut gb, 4);
    assert_eq!(gb.cpu.a, 0x12);
    assert_eq!(gb.cpu.f, 0xF0);
}

#[test]
fn call_and_ret() {
    let mut rom = rom_with(&[0xCD, 0x00, 0x02, 0x06, 0x55], &[]);
    rom[0x200] = 0x3E; // LD A,0x77
    rom[0x201] = 0x77;
    rom[0x202] = 0xC9; // RET
    let mut gb = GameBoy::new(rom);
    assert_eq!(gb.step(), 24);
    assert_eq!(gb.cpu.pc, 0x0200);
    assert_eq!(gb.cpu.sp, 0xFFFC);
    assert_eq!(gb.mmu.read(0xFFFD), 0x01);
    assert_eq!(gb.mmu.read(0xFFFC), 0x03);
    run_steps(&mut gb, 2);
    assert_eq!(gb.cpu.pc, 0x0103);
    assert_eq!(gb.cpu.sp, 0xFFFE);
    run_steps(&mut gb, 1);
    assert_eq!((gb.cpu.a, gb.cpu.b), (0x77, 0x55));
}

#[test]
fn ld_hl_increment_store() {
    // LD HL,0xC000 ; LD A,0x99 ; LD (HL+),A ; LD A,(HL-)
    let mut gb = GameBoy::new(rom_with(&[0x21, 0x00, 0xC0, 0x3E, 0x99, 0x22, 0x3A], &[]));
    run_steps(&mut gb, 3);
    assert_eq!(gb.mmu.read(0xC000), 0x99);
    assert_eq!((gb.cpu.h, gb.cpu.l), (0xC0, 0x01));
    run_steps(&mut gb, 1);
    assert_eq!(gb.cpu.a, 0x00);
    assert_eq!((gb.cpu.h, gb.cpu.l), (0xC0, 0x00));
}

#[test]
fn inc_hl_memory_wraps() {
    // LD HL,0xC010 ; LD (HL),0xFF ; INC (HL)
    let mut gb = GameBoy::new(rom_with(&[0x21, 0x10, 0xC0, 0x36, 0xFF, 0x34], &[]));
    run_steps(&mut gb, 2);
    assert_eq!(gb.step(), 12);
    assert_eq!(gb.mmu.read(0xC010), 0x00);
    assert_eq!(gb.cpu.f & 0xE0, 0xA0);
}

#[test]
fn add_sp_signed_offset() {
    // LD SP,0xFFF8 ; ADD SP,-2
    let mut gb = GameBoy::new(rom_with(&[0x31, 0xF8, 0xFF, 0xE8, 0xFE], &[]));
    run_steps(&mut gb, 2);
    assert_eq!(gb.cpu.sp, 0xFFF6);
    assert_eq!(gb.cpu.f, 0x30);
}

#[test]
fn jr_conditional_taken_and_not() {
    // XOR A ; JR NZ,+2 (not taken) ; JR Z,+2 (taken) ; NOP ; NOP ; NOP
    let mut gb = GameBoy::new(rom_with(&[0xAF, 0x20, 0x02, 0x28, 0x02, 0x00, 0x00, 0x00], &[]));
    run_steps(&mut gb, 1);
    assert_eq!(gb.step(), 8);
    assert_eq!(gb.cpu.pc, 0x0103);
    assert_eq!(gb.step(), 12);
    assert_eq!(gb.cpu.pc, 0x0107);
}

#[test]
fn interrupt_dispatch_after_ei_delay() {
    let code = [
        0x31, 0xFE, 0xFF, // LD SP,0xFFFE
        0x3E, 0x04, // LD A,4
        0xE0, 0xFF, // LDH (IE),A  -- timer
        0x3E, 0x04, // LD A,4
        0xE0, 0x0F, // LDH (IF),A  -- timer requested
        0xFB, // EI
        0x00, // NOP
        0x00, // NOP
    ];
    let mut gb = GameBoy::new(rom_with(&code, &[]));
    run_steps(&mut gb, 6);
    assert!(!gb.cpu.ime);
    assert!(gb.cpu.ime_scheduled);
    // The instruction after EI still runs, then the interrupt is taken.
    assert_eq!(gb.step(), 24);
    assert_eq!(gb.cpu.pc, 0x0050);
    assert!(!gb.cpu.ime);
    assert_eq!(gb.mmu.read(0xFF0F) & 0x04, 0);
    assert_eq!(gb.cpu.sp, 0xFFFC);
    assert_eq!(gb.mmu.read(0xFFFC), 0x0D);
    assert_eq!(gb.mmu.read(0xFFFD), 0x01);
}

#[test]
fn halt_idles_without_interrupt() {
    // XOR A ; LDH (IE),A ; HALT
    let mut gb = GameBoy::new(rom_with(&[0xAF, 0xE0, 0xFF, 0x76], &[]));
    run_steps(&mut gb, 3);
    assert!(gb.cpu.halted);
    let pc = gb.cpu.pc;
    assert_eq!(gb.step(), 4);
    assert_eq!(gb.cpu.pc, pc);
    assert!(gb.cpu.halted);
}

#[test]
fn halt_bug_repeats_next_byte() {
    // DI ; LD A,1 ; LDH (IE),A (VBlank already requested at boot) ; HALT ; INC B ; NOP
    let mut gb = GameBoy::new(rom_with(&[0xF3, 0x3E, 0x01, 0xE0, 0xFF, 0x76, 0x04, 0x00], &[]));
    run_steps(&mut gb, 4);
    assert!(!gb.cpu.halted);
    assert!(gb.cpu.halt_bug);
    run_steps(&mut gb, 2);
    // INC B ran twice: once from the re-read byte, once normally.
    assert_eq!(gb.cpu.b, 0x02);
}

#[test]
fn illegal_opcode_is_a_nop() {
    let mut gb = GameBoy::new(rom_with(&[0xD3], &[]));
    assert_eq!(gb.step(), 4);
    assert_eq!(gb.cpu.pc, 0x0101);
}

#[test]
fn frame_reaches_vblank() {
    let mut gb = GameBoy::new(rom_with(&[0x18, 0xFE], &[]));
    gb.run_frame();
    // One full frame returns the PPU to the first lines.
    assert!(gb.mmu.read(0xFF44) < 10);
    assert!(gb.mmu.ppu.frame_ready);
    assert_eq!(gb.mmu.read(0xFF0F) & 0x01, 0x01);
}

#[test]
fn daa_adjusts_bcd_subtraction() {
    // LD A,0x42 ; SUB 0x17 ; DAA
    let mut gb = GameBoy::new(rom_with(&[0x3E, 0x42, 0xD6, 0x17, 0x27], &[]));
    run_steps(&mut gb, 3);
    assert_eq!(gb.cpu.a, 0x25);
    assert_eq!(gb.cpu.f & 0xF0, 0x40);
}

#[test]
fn daa_after_borrow_wraps_mod_100() {
    // LD A,0x17 ; SUB 0x42 ; DAA  (17 - 42 = 75, borrow)
    let mut gb = GameBoy::new(rom_with(&[0x3E, 0x17, 0xD6, 0x42, 0x27], &[]));
    run_steps(&mut gb, 3);
    assert_eq!(gb.cpu.a, 0x75);
    assert_eq!(gb.cpu.f & 0xF0, 0x50);
}

#[test]
fn daa_after_decimal_carry() {
    // LD A,0x99 ; ADD A,0x01 ; DAA  (99 + 1 = 100)
    let mut gb = GameBoy::new(rom_with(&[0x3E, 0x99, 0xC6, 0x01, 0x27], &[]));
    run_steps(&mut gb, 3);
    assert_eq!(gb.cpu.a, 0x00);
    assert_eq!(gb.cpu.f & 0xF0, 0x90);
}

#[test]
fn rl_then_rr_restores_value_and_carry() {
    // LD A,0x85 ; SCF ; RL A ; RR A
    let mut gb = GameBoy::new(rom_with(&[0x3E, 0x85, 0x37, 0xCB, 0x17, 0xCB, 0x1F], &[]));
    run_steps(&mut gb, 3);
    assert_eq!(gb.cpu.a, 0x0B);
    assert_eq!(gb.cpu.f & 0x10, 0x10);
    run_steps(&mut gb, 1);
    assert_eq!(gb.cpu.a, 0x85);
    assert_eq!(gb.cpu.f & 0x10, 0x10);
}

#[test]
fn steps_keep_low_flag_bits_clear_and_whole_machine_cycles() {
    // A mix of loads, arithmetic, stack and CB operations.
    let code = [
        0x31, 0xF0, 0xDF, 0x3E, 0x0F, 0xC6, 0x01, 0x27, 0xF5, 0xF1, 0xCB, 0x37, 0x2F, 0x3F,
        0xE8, 0xFE, 0x18, 0x00, 0x00,
    ];
    let mut gb = GameBoy::new(rom_with(&code, &[]));
    for _ in 0..13 {
        let cycles = gb.step();
        assert_eq!(cycles % 4, 0);
        assert!((4..=44).contains(&cycles));
        assert_eq!(gb.cpu.f & 0x0F, 0);
    }
}

#[test]
fn boot_maps_rom_and_fills_past_its_end() {
    let mut rom = vec![0u8; 0x100];
    rom[0x10] = 0xAB;
    let gb = GameBoy::new(rom);
    assert_eq!(gb.cpu.pc, 0x0100);
    assert_eq!(gb.mmu.read(0x0010), 0xAB);
    assert_eq!(gb.mmu.read(0x00FF), 0x00);
    assert_eq!(gb.mmu.read(0x0100), 0xFF);
    assert_eq!(gb.mmu.read(0x4000), 0xFF);
}
