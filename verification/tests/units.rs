use gbcore::apu::Apu;
use gbcore::cartridge::{Cartridge, MbcType};
use gbcore::gameboy::button_from_code;
use gbcore::joypad::{Button, Joypad};
use gbcore::mmu::Mmu;
use gbcore::ppu::{palette_color, Ppu};
use gbcore::timer::Timer;

#[test]
fn timer_overflow_reloads_and_requests_interrupt() {
    let mut t = Timer::new();
    t.tac = 0x05; // enabled, 16 cycles per increment
    t.tima = 0xFF;
    t.tma = 0x42;
    t.step(16);
    assert_eq!(t.tima, 0x42);
    assert!(t.irq);
    assert_eq!(t.tima_acc, 0);
}

#[test]
fn timer_counts_per_period() {
    let mut t = Timer::new();
    t.tac = 0x06; // enabled, 64 cycles per increment
    t.step(200);
    assert_eq!(t.tima, 3);
    assert_eq!(t.tima_acc, 8);
    assert!(!t.irq);
}

#[test]
fn timer_disabled_leaves_tima() {
    let mut t = Timer::new();
    t.step(5000);
    assert_eq!(t.tima, 0);
    assert!(!t.irq);
}

#[test]
fn div_counts_and_resets() {
    let mut t = Timer::new();
    assert_eq!(t.div(), 0xAB);
    t.step(256);
    assert_eq!(t.div(), 0xAC);
    t.reset_div();
    assert_eq!(t.div(), 0);
}

fn banked_rom(mbc: u8, ram: u8, banks: usize) -> Vec<u8> {
    let mut rom = vec![0u8; banks * 0x4000];
    for b in 0..banks {
        rom[b * 0x4000] = b as u8;
        rom[b * 0x4000 + 1] = 0xB0 | b as u8;
    }
    rom[0x147] = mbc;
    rom[0x149] = ram;
    rom
}

#[test]
fn cartridge_header_selects_controller_and_ram() {
    let c = Cartridge::new(banked_rom(0x01, 0x03, 4));
    assert_eq!(c.mbc_type, MbcType::Mbc1);
    assert_eq!(c.ram.len(), 32 * 1024);
    assert_eq!(c.rom_bank_count, 4);
    let c = Cartridge::new(banked_rom(0x13, 0x00, 2));
    assert_eq!(c.mbc_type, MbcType::Mbc3);
    assert_eq!(c.ram.len(), 8 * 1024);
    let c = Cartridge::new(banked_rom(0x1B, 0x04, 2));
    assert_eq!(c.mbc_type, MbcType::Mbc5);
    assert_eq!(c.ram.len(), 128 * 1024);
    let c = Cartridge::new(vec![0u8; 0x100]);
    assert_eq!(c.mbc_type, MbcType::RomOnly);
    assert_eq!(c.rom_bank_count, 2);
}

#[test]
fn mbc1_rom_banking() {
    let mut c = Cartridge::new(banked_rom(0x01, 0x00, 4));
    assert_eq!(c.read(0x4000), 1);
    c.write(0x2000, 2);
    assert_eq!(c.read(0x4000), 2);
    assert_eq!(c.read(0x4001), 0xB2);
    c.write(0x2000, 0);
    assert_eq!(c.read(0x4000), 1);
    c.write(0x2000, 5);
    assert_eq!(c.read(0x4000), 1);
    assert_eq!(c.read(0x0000), 0);
}

#[test]
fn mbc5_nine_bit_bank() {
    let mut c = Cartridge::new(banked_rom(0x19, 0x00, 4));
    c.write(0x2000, 3);
    assert_eq!(c.read(0x4000), 3);
    c.write(0x3000, 1);
    assert_eq!(c.rom_bank, 0x103);
    assert_eq!(c.read(0x4000), 3);
    c.write(0x2000, 0);
    c.write(0x3000, 0);
    assert_eq!(c.read(0x4000), 1);
}

#[test]
fn cartridge_ram_enable_and_round_trip() {
    let mut c = Cartridge::new(banked_rom(0x03, 0x02, 2));
    assert_eq!(c.read(0xA000), 0xFF);
    c.write(0xA000, 0x42);
    assert_eq!(c.read(0xA000), 0xFF);
    c.write(0x0000, 0x0A);
    c.write(0xA123, 0x42);
    assert_eq!(c.read(0xA123), 0x42);
    c.write(0x0000, 0x00);
    assert_eq!(c.read(0xA123), 0xFF);
}

#[test]
fn rom_only_ignores_writes() {
    let mut c = Cartridge::new(banked_rom(0x00, 0x00, 2));
    c.write(0x2000, 1);
    assert_eq!(c.read(0x4000), 1);
    assert_eq!(c.read(0x0000), 0);
    assert_eq!(c.read(0x9000), 0xFF);
}

#[test]
fn work_ram_echo_and_high_ram() {
    let mut m = Mmu::new(vec![0u8; 0x8000]);
    m.write(0xC123, 0x5A);
    assert_eq!(m.read(0xC123), 0x5A);
    assert_eq!(m.read(0xE123), 0x5A);
    m.write(0xE200, 0x77);
    assert_eq!(m.read(0xC200), 0x77);
    m.write(0xFF90, 0x11);
    assert_eq!(m.read(0xFF90), 0x11);
    assert_eq!(m.read(0xFEA5), 0xFF);
}

#[test]
fn interrupt_flag_register_masks() {
    let mut m = Mmu::new(vec![0u8; 0x8000]);
    assert_eq!(m.read(0xFF0F), 0xE1);
    m.write(0xFF0F, 0xFF);
    assert_eq!(m.if_flag, 0x1F);
    assert_eq!(m.read(0xFF0F), 0xFF);
    m.write(0xFF0F, 0x04);
    assert_eq!(m.read(0xFF0F), 0xE4);
    m.write(0xFFFF, 0x1F);
    assert_eq!(m.read(0xFFFF), 0x1F);
}

#[test]
fn oam_dma_copies_a_page() {
    let mut m = Mmu::new(vec![0u8; 0x8000]);
    for i in 0..0xA0u16 {
        m.write(0xC100 + i, (i as u8) ^ 0x5A);
    }
    m.write(0xFF46, 0xC1);
    for i in 0..0xA0u16 {
        assert_eq!(m.read(0xFE00 + i), (i as u8) ^ 0x5A);
    }
    assert!(!m.dma_active);
}

#[test]
fn timer_registers_through_the_bus() {
    let mut m = Mmu::new(vec![0u8; 0x8000]);
    assert_eq!(m.read(0xFF04), 0xAB);
    m.write(0xFF04, 0x99);
    assert_eq!(m.read(0xFF04), 0x00);
    m.write(0xFF07, 0x05);
    assert_eq!(m.read(0xFF07), 0xFD);
    m.write(0xFF05, 0xFF);
    m.tick_components(16);
    assert_eq!(m.read(0xFF05), 0x00);
    assert_eq!(m.if_flag & 0x04, 0x04);
}

#[test]
fn stat_write_keeps_mode_bits() {
    let mut m = Mmu::new(vec![0u8; 0x8000]);
    m.write(0xFF41, 0xFF);
    assert_eq!(m.ppu.stat, 0xFD);
    assert_eq!(m.read(0xFF41), 0xFD);
    m.write(0xFF44, 0x33);
    assert_eq!(m.read(0xFF44), 0);
}

#[test]
fn ppu_mode_sequence_of_a_line() {
    let mut p = Ppu::new();
    assert_eq!(p.mode, 2);
    p.step(80);
    assert_eq!(p.mode, 3);
    assert_eq!(p.stat & 0x03, 3);
    p.step(172);
    assert_eq!(p.mode, 0);
    p.step(204);
    assert_eq!(p.mode, 2);
    assert_eq!(p.ly, 1);
}

#[test]
fn ppu_enters_vblank_after_144_lines() {
    let mut p = Ppu::new();
    let mut cycles = 0;
    while cycles < 144 * 456 {
        p.step(4);
        cycles += 4;
    }
    assert_eq!(p.ly, 144);
    assert_eq!(p.mode, 1);
    assert!(p.vblank_irq);
    assert!(p.frame_ready);
}

#[test]
fn ppu_lcd_off_resets_line() {
    let mut p = Ppu::new();
    p.step(80);
    p.step(172);
    p.step(204);
    assert_eq!(p.ly, 1);
    p.lcdc = 0x11;
    p.step(4);
    assert_eq!(p.ly, 0);
    assert_eq!(p.mode, 0);
    assert_eq!(p.dot, 0);
}

#[test]
fn lyc_coincidence_requests_stat_interrupt() {
    let mut p = Ppu::new();
    p.lyc = 1;
    p.stat = 0x40;
    p.step(80);
    p.step(172);
    assert!(!p.stat_irq);
    p.step(204);
    assert_eq!(p.ly, 1);
    assert!(p.stat_irq);
}

fn sprite_ppu() -> Ppu {
    let mut p = Ppu::new();
    p.lcdc = 0x93; // LCD, sprites, background on; tiles at 0x8000
    p.bgp = 0xE4;
    p.obp0 = 0xE4;
    for row in 0..8usize {
        // tile 1: colour 3 everywhere
        p.vram[0x10 + row * 2] = 0xFF;
        p.vram[0x10 + row * 2 + 1] = 0xFF;
        // tile 2: colour 1 everywhere
        p.vram[0x20 + row * 2] = 0xFF;
        p.vram[0x20 + row * 2 + 1] = 0x00;
    }
    p
}

fn pixel(p: &Ppu, x: usize, y: usize) -> [u8; 4] {
    let i = (y * 160 + x) * 4;
    [p.framebuffer[i], p.framebuffer[i + 1], p.framebuffer[i + 2], p.framebuffer[i + 3]]
}

#[test]
fn sprite_with_smaller_x_wins() {
    let mut p = sprite_ppu();
    // sprite 0 at column 0 with tile 1, sprite 1 at column 4 with tile 2
    p.oam[0..4].copy_from_slice(&[16, 8, 1, 0]);
    p.oam[4..8].copy_from_slice(&[16, 12, 2, 0]);
    p.step(80);
    p.step(172);
    assert_eq!(pixel(&p, 5, 0), [0x08, 0x18, 0x20, 255]);
    assert_eq!(pixel(&p, 9, 0), [0x88, 0xC0, 0x70, 255]);
    assert_eq!(pixel(&p, 20, 0), [0xE0, 0xF8, 0xD0, 255]);
}

#[test]
fn sprites_at_equal_x_later_entry_wins() {
    let mut p = sprite_ppu();
    p.oam[0..4].copy_from_slice(&[16, 8, 1, 0]);
    p.oam[4..8].copy_from_slice(&[16, 8, 2, 0]);
    p.step(80);
    p.step(172);
    assert_eq!(pixel(&p, 3, 0), [0x88, 0xC0, 0x70, 255]);
}

#[test]
fn sprite_behind_background_is_hidden_by_nonzero_background() {
    let mut p = sprite_ppu();
    // background map entry 0 uses tile 1 (colour 3) for columns 0..8
    p.vram[0x1800] = 1;
    p.oam[0..4].copy_from_slice(&[16, 8, 2, 0x80]);
    p.oam[4..8].copy_from_slice(&[16, 16, 2, 0x80]);
    p.step(80);
    p.step(172);
    assert_eq!(pixel(&p, 2, 0), [0x08, 0x18, 0x20, 255]);
    assert_eq!(pixel(&p, 9, 0), [0x88, 0xC0, 0x70, 255]);
}

#[test]
fn only_ten_sprites_per_line() {
    let mut p = sprite_ppu();
    for i in 0..11usize {
        p.oam[i * 4..i * 4 + 4].copy_from_slice(&[16, (8 + i * 8) as u8, 1, 0]);
    }
    p.step(80);
    p.step(172);
    assert_eq!(pixel(&p, 9 * 8 + 1, 0), [0x08, 0x18, 0x20, 255]);
    assert_eq!(pixel(&p, 10 * 8 + 1, 0), [0xE0, 0xF8, 0xD0, 255]);
}

#[test]
fn window_draws_from_its_own_map() {
    let mut p = sprite_ppu();
    p.lcdc = 0xF1; // window on, window map 0x9C00
    p.wx = 7;
    p.wy = 0;
    p.vram[0x1C00] = 1;
    p.step(80);
    p.step(172);
    assert_eq!(pixel(&p, 0, 0), [0x08, 0x18, 0x20, 255]);
    assert_eq!(pixel(&p, 8, 0), [0xE0, 0xF8, 0xD0, 255]);
    assert_eq!(p.window_line, 1);
}

#[test]
fn palette_maps_color_numbers() {
    assert_eq!(palette_color(0xE4, 0), [0xE0, 0xF8, 0xD0]);
    assert_eq!(palette_color(0xE4, 1), [0x88, 0xC0, 0x70]);
    assert_eq!(palette_color(0xE4, 2), [0x34, 0x68, 0x56]);
    assert_eq!(palette_color(0xE4, 3), [0x08, 0x18, 0x20]);
    assert_eq!(palette_color(0x1B, 0), [0x08, 0x18, 0x20]);
}

#[test]
fn apu_power_and_status() {
    let mut a = Apu::new();
    assert_eq!(a.read(0xFF26), 0xF0);
    a.write(0xFF26, 0x00);
    assert_eq!(a.read(0xFF26), 0x70);
    a.write(0xFF12, 0xF0);
    assert_eq!(a.read(0xFF12), 0x00);
    a.write(0xFF30, 0xAB);
    assert_eq!(a.read(0xFF30), 0xAB);
    a.write(0xFF26, 0x80);
    a.write(0xFF12, 0xF3);
    assert_eq!(a.read(0xFF12), 0xF3);
    a.write(0xFF14, 0x87);
    assert_eq!(a.read(0xFF26) & 0x01, 0x01);
    assert_eq!(a.read(0xFF14), 0xBF);
}

#[test]
fn apu_length_counter_stops_channel() {
    let mut a = Apu::new();
    a.write(0xFF12, 0xF0);
    a.write(0xFF11, 0x3F); // length 1
    a.write(0xFF14, 0xC0); // trigger with length enabled
    assert_eq!(a.read(0xFF26) & 0x01, 0x01);
    a.step(8192);
    assert_eq!(a.read(0xFF26) & 0x01, 0x00);
}

#[test]
fn apu_records_one_sample_per_95_cycles() {
    let mut a = Apu::new();
    a.step(95);
    assert_eq!(a.take_buffer().len(), 1);
    a.step(190);
    assert_eq!(a.take_buffer().len(), 2);
    a.step(94);
    assert_eq!(a.take_buffer().len(), 0);
    a.step(1);
    let frames = a.take_buffer();
    assert_eq!(frames.len(), 1);
    assert_eq!(frames[0].nr50, 0x77);
    assert_eq!(frames[0].nr51, 0xF3);
    assert_eq!(frames[0].ch1, 0);
}

#[test]
fn apu_square_level_follows_duty() {
    let mut a = Apu::new();
    a.write(0xFF12, 0xA0); // volume 10
    a.write(0xFF11, 0x80); // duty 2
    a.write(0xFF13, 0x00);
    a.write(0xFF14, 0x87); // frequency 0x700, trigger
    a.step(95);
    let f = a.take_buffer();
    // duty 2 step 0 is high
    assert_eq!(f[0].ch1, 10);
}

#[test]
fn joypad_press_raises_interrupt_once() {
    let mut j = Joypad::new();
    j.set(Button::Start, true);
    assert!(j.irq);
    j.irq = false;
    j.set(Button::Start, true);
    assert!(!j.irq);
    j.write(0x10); // select action keys
    assert_eq!(j.read(), 0xD7);
    j.set(Button::Start, false);
    assert_eq!(j.read(), 0xDF);
}

#[test]
fn button_codes() {
    assert_eq!(button_from_code(0), Some(Button::Right));
    assert_eq!(button_from_code(3), Some(Button::Down));
    assert_eq!(button_from_code(4), Some(Button::A));
    assert_eq!(button_from_code(7), Some(Button::Start));
    assert_eq!(button_from_code(8), None);
}

#[test]
fn apu_sample_count_ignores_how_cycles_are_split() {
    let mut a = Apu::new();
    for _ in 0..19 {
        a.step(30);
    }
    // 19 * 30 = 570 = 6 * 95
    assert_eq!(a.take_buffer().len(), 6);
    a.step(94);
    assert_eq!(a.take_buffer().len(), 0);
    a.step(1);
    assert_eq!(a.take_buffer().len(), 1);
}

#[test]
fn tick_folds_requests_into_if_and_clears_them() {
    let mut m = Mmu::new(vec![0u8; 0x8000]);
    m.write(0xFF0F, 0x00);
    m.joypad.irq = true;
    m.timer.irq = true;
    m.tick_components(4);
    assert_eq!(m.if_flag & 0x14, 0x14);
    assert_eq!(m.if_flag & !0x17, 0);
    assert!(!m.joypad.irq);
    assert!(!m.timer.irq);
    assert!(!m.ppu.vblank_irq);
    assert!(!m.ppu.stat_irq);
}

#[test]
fn ppu_line_advances_by_one_and_wraps() {
    let mut p = Ppu::new();
    let mut last = p.ly;
    for _ in 0..(154 * 456 / 4 + 10) {
        p.step(4);
        assert!(p.ly <= 153);
        assert!(p.ly == last || p.ly == (last + 1) % 154);
        assert_eq!(p.mode == 1, p.ly >= 144);
        last = p.ly;
    }
}
