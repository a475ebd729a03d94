use vstd::prelude::*;
use vstd::arithmetic::div_mod::lemma_fundamental_div_mod_converse;

verus! {

pub const SCREEN_W: usize = 160;
pub const SCREEN_H: usize = 144;
/// Bytes in the RGBA framebuffer: SCREEN_W * SCREEN_H * 4.
pub const FB_LEN: usize = 92160;

pub const MODE_HBLANK: u8 = 0;
pub const MODE_VBLANK: u8 = 1;
pub const MODE_OAM: u8 = 2;
pub const MODE_TRANSFER: u8 = 3;

/// The picture processing unit: video memory, its registers, and the
/// RGBA framebuffer it renders into.
pub struct Ppu {
    pub vram: [u8; 0x2000],
    pub oam: [u8; 0xA0],
    pub lcdc: u8,
    pub stat: u8,
    pub scy: u8,
    pub scx: u8,
    pub ly: u8,
    pub lyc: u8,
    pub bgp: u8,
    pub obp0: u8,
    pub obp1: u8,
    pub wy: u8,
    pub wx: u8,
    pub mode: u8,
    pub dot: u32,
    pub window_line: u8,
    pub framebuffer: [u8; FB_LEN],
    pub vblank_irq: bool,
    pub stat_irq: bool,
    pub frame_ready: bool,
}

/// The abstract state of the PPU.
pub ghost struct PpuModel {
    pub vram: Seq<u8>,
    pub oam: Seq<u8>,
    pub lcdc: u8,
    pub stat: u8,
    pub scy: u8,
    pub scx: u8,
    pub ly: u8,
    pub lyc: u8,
    pub bgp: u8,
    pub obp0: u8,
    pub obp1: u8,
    pub wy: u8,
    pub wx: u8,
    pub mode: u8,
    pub dot: u32,
    pub window_line: u8,
    pub framebuffer: Seq<u8>,
    pub vblank_irq: bool,
    pub stat_irq: bool,
    pub frame_ready: bool,
}

impl View for Ppu {
    type V = PpuModel;

    open spec fn view(&self) -> PpuModel {
        PpuModel {
            vram: self.vram@,
            oam: self.oam@,
            lcdc: self.lcdc,
            stat: self.stat,
            scy: self.scy,
            scx: self.scx,
            ly: self.ly,
            lyc: self.lyc,
            bgp: self.bgp,
            obp0: self.obp0,
            obp1: self.obp1,
            wy: self.wy,
            wx: self.wx,
            mode: self.mode,
            dot: self.dot,
            window_line: self.window_line,
            framebuffer: self.framebuffer@,
            vblank_irq: self.vblank_irq,
            stat_irq: self.stat_irq,
            frame_ready: self.frame_ready,
        }
    }
}

/// The DMG green shades, darkest last, for a 2-bit shade number.
pub open spec fn shade_rgb(shade: u8) -> (u8, u8, u8) {
    if shade == 0 {
        (0xE0, 0xF8, 0xD0)
    } else if shade == 1 {
        (0x88, 0xC0, 0x70)
    } else if shade == 2 {
        (0x34, 0x68, 0x56)
    } else {
        (0x08, 0x18, 0x20)
    }
}

/// The colour that a palette register maps a 2-bit colour number to.
pub open spec fn palette_rgb(palette: u8, color_num: u8) -> (u8, u8, u8) {
    shade_rgb((palette >> ((color_num * 2) as u8)) & 3)
}

/// The 2-bit colour number of pixel `bit` (7 = leftmost) of the tile row
/// whose two bytes start at VRAM address `row_addr`.
pub open spec fn tile_color(vram: Seq<u8>, row_addr: int, bit: u8) -> u8 {
    let lo = vram[row_addr - 0x8000];
    let hi = vram[row_addr + 1 - 0x8000];
    (((hi >> bit) & 1) << 1) | ((lo >> bit) & 1)
}

/// Byte `c` of an RGBA pixel of colour `rgb` (alpha is always 255).
pub open spec fn rgba_byte(rgb: (u8, u8, u8), c: int) -> u8 {
    if c == 0 {
        rgb.0
    } else if c == 1 {
        rgb.1
    } else if c == 2 {
        rgb.2
    } else {
        255
    }
}

/// The framebuffer with the first `n` pixels of row `y` painted by `color`.
pub open spec fn paint_row(fb: Seq<u8>, y: int, n: int, color: spec_fn(int) -> (u8, u8, u8)) -> Seq<u8> {
    Seq::new(
        fb.len(),
        |i: int|
            if y * 640 <= i < y * 640 + 4 * n {
                rgba_byte(color((i - y * 640) / 4), (i - y * 640) % 4)
            } else {
                fb[i]
            },
    )
}

/// The framebuffer with pixel (x, y) set to `rgb`.
pub open spec fn set_pixel_fb(fb: Seq<u8>, x: int, y: int, rgb: (u8, u8, u8)) -> Seq<u8> {
    let idx = (y * 160 + x) * 4;
    fb.update(idx, rgb.0).update(idx + 1, rgb.1).update(idx + 2, rgb.2).update(idx + 3, 255)
}

pub proof fn lemma_paint_row_step(fb: Seq<u8>, y: int, n: int, color: spec_fn(int) -> (u8, u8, u8))
    requires
        fb.len() == 92160,
        0 <= y < 144,
        0 <= n < 160,
    ensures
        paint_row(fb, y, n + 1, color) == set_pixel_fb(paint_row(fb, y, n, color), n, y, color(n)),
{
    let a = paint_row(fb, y, n + 1, color);
    let b = set_pixel_fb(paint_row(fb, y, n, color), n, y, color(n));
    let base = y * 640 + 4 * n;
    assert((y * 160 + n) * 4 == base);
    assert forall|i: int| 0 <= i < a.len() implies a[i] == b[i] by {
        if base <= i < base + 4 {
            lemma_fundamental_div_mod_converse(i - y * 640, 4, n, i - base);
        }
    }
    assert(a =~= b);
}

pub proof fn lemma_paint_row_ext(
    fb: Seq<u8>,
    y: int,
    n: int,
    f: spec_fn(int) -> (u8, u8, u8),
    g: spec_fn(int) -> (u8, u8, u8),
)
    requires
        0 <= n,
        forall|x: int| 0 <= x < n ==> #[trigger] f(x) == g(x),
    ensures
        paint_row(fb, y, n, f) == paint_row(fb, y, n, g),
{
    let a = paint_row(fb, y, n, f);
    let b = paint_row(fb, y, n, g);
    assert forall|i: int| 0 <= i < a.len() implies a[i] == b[i] by {
        if y * 640 <= i < y * 640 + 4 * n {
            let x = (i - y * 640) / 4;
            lemma_fundamental_div_mod_converse(i - y * 640, 4, x, (i - y * 640) % 4);
            assert(0 <= x < n);
        }
    }
    assert(a =~= b);
}

/// Setting one pixel of a painted row is painting the row with that pixel's
/// colour replaced.
pub proof fn lemma_paint_row_set(
    fb: Seq<u8>,
    y: int,
    f: spec_fn(int) -> (u8, u8, u8),
    g: spec_fn(int) -> (u8, u8, u8),
    x: int,
)
    requires
        fb.len() == 92160,
        0 <= y < 144,
        0 <= x < 160,
        forall|z: int| 0 <= z < 160 && z != x ==> #[trigger] f(z) == g(z),
    ensures
        set_pixel_fb(paint_row(fb, y, 160, f), x, y, g(x)) == paint_row(fb, y, 160, g),
{
    let a = set_pixel_fb(paint_row(fb, y, 160, f), x, y, g(x));
    let b = paint_row(fb, y, 160, g);
    let base = y * 640 + 4 * x;
    assert((y * 160 + x) * 4 == base);
    assert forall|i: int| 0 <= i < b.len() implies a[i] == b[i] by {
        if y * 640 <= i < y * 640 + 640 {
            let z = (i - y * 640) / 4;
            lemma_fundamental_div_mod_converse(i - y * 640, 4, z, (i - y * 640) % 4);
            if base <= i < base + 4 {
                lemma_fundamental_div_mod_converse(i - y * 640, 4, x, i - base);
            } else {
                assert(z != x);
            }
        }
    }
    assert(a =~= b);
}

pub proof fn lemma_paint_row_zero(fb: Seq<u8>, y: int, color: spec_fn(int) -> (u8, u8, u8))
    ensures
        paint_row(fb, y, 0, color) == fb,
{
    assert(paint_row(fb, y, 0, color) =~= fb);
}

impl PpuModel {
    /// The invariant the PPU keeps: a valid mode, LY within the lines that
    /// mode covers, and buffers of the right sizes.
    pub open spec fn wf(self) -> bool {
        &&& self.vram.len() == 0x2000
        &&& self.oam.len() == 0xA0
        &&& self.framebuffer.len() == 92160
        &&& self.mode <= 3
        &&& if self.mode == MODE_VBLANK { 144 <= self.ly <= 153 } else { self.ly < 144 }
    }

    pub open spec fn lcd_on(self) -> bool {
        self.lcdc & 0x80 != 0
    }

    /// Whether the window covers the current line.
    pub open spec fn window_active(self) -> bool {
        self.lcdc & 0x20 != 0 && self.wy <= self.ly && self.wx <= 166
    }

    /// The VRAM address of the first byte of a tile, by LCDC's addressing mode.
    pub open spec fn tile_addr(self, tile_num: u8) -> int {
        if self.lcdc & 0x10 == 0 {
            if tile_num < 128 { 0x9000 + tile_num * 16 } else { 0x9000 + (tile_num - 256) * 16 }
        } else {
            0x8000 + tile_num * 16
        }
    }

    /// The background/window colour number at column x of the current line.
    pub open spec fn bg_color_num(self, x: int) -> u8 {
        let in_window = self.window_active() && x + 7 >= self.wx;
        let map_base: int = if in_window {
            if self.lcdc & 0x40 != 0 { 0x9C00 } else { 0x9800 }
        } else {
            if self.lcdc & 0x08 != 0 { 0x9C00 } else { 0x9800 }
        };
        let (px, py) = if in_window {
            (x + 7 - self.wx, self.window_line as int)
        } else {
            ((x + self.scx) % 256, (self.ly + self.scy) % 256)
        };
        let tile_num = self.vram[map_base + (py / 8) * 32 + px / 8 - 0x8000];
        tile_color(self.vram, self.tile_addr(tile_num) + (py % 8) * 2, (7 - px % 8) as u8)
    }

    /// The colour number the background contributes at column x (0 when the
    /// background is disabled), used for sprite priority.
    pub open spec fn bg_index(self, x: int) -> u8 {
        if self.lcdc & 0x01 != 0 { self.bg_color_num(x) } else { 0 }
    }

    /// The background colour of column x of the current line.
    pub open spec fn bg_rgb(self, x: int) -> (u8, u8, u8) {
        if self.lcdc & 0x01 != 0 {
            palette_rgb(self.bgp, self.bg_color_num(x))
        } else {
            (255, 255, 255)
        }
    }

    /// The colour of column x of the current line, sprites included.
    pub open spec fn line_rgb(self, x: int) -> (u8, u8, u8) {
        if self.lcdc & 0x02 != 0 {
            self.composed_rgb(x)
        } else {
            self.bg_rgb(x)
        }
    }

    /// The PPU after the current line is drawn into the framebuffer.
    pub open spec fn render_line(self) -> PpuModel {
        if self.ly >= 144 {
            self
        } else {
            let fb = paint_row(self.framebuffer, self.ly as int, 160, |x: int| self.line_rgb(x));
            let wl = if self.lcdc & 0x01 != 0 && self.window_active() {
                ((self.window_line + 1) % 256) as u8
            } else {
                self.window_line
            };
            PpuModel { framebuffer: fb, window_line: wl, ..self }
        }
    }

    /// LYC comparison: the coincidence flag follows LY == LYC, and the STAT
    /// interrupt is requested on coincidence when enabled.
    pub open spec fn lyc_checked(self) -> PpuModel {
        if self.ly == self.lyc {
            PpuModel {
                stat: self.stat | 0x04,
                stat_irq: self.stat_irq || (self.stat | 0x04) & 0x40 != 0,
                ..self
            }
        } else {
            PpuModel { stat: self.stat & !0x04u8, ..self }
        }
    }

    /// The mode transition, if any, that `dot` (already advanced) triggers.
    pub open spec fn advance_mode(self) -> PpuModel {
        if self.mode == MODE_OAM {
            if self.dot >= 80 {
                PpuModel { dot: (self.dot - 80) as u32, mode: MODE_TRANSFER, ..self }
            } else {
                self
            }
        } else if self.mode == MODE_TRANSFER {
            if self.dot >= 172 {
                let r = PpuModel { dot: (self.dot - 172) as u32, mode: MODE_HBLANK, ..self }.render_line();
                PpuModel { stat_irq: r.stat_irq || self.stat & 0x08 != 0, ..r }
            } else {
                self
            }
        } else if self.mode == MODE_HBLANK {
            if self.dot >= 204 {
                let ly = (self.ly + 1) as u8;
                let q = if ly == 144 {
                    PpuModel {
                        dot: (self.dot - 204) as u32,
                        ly,
                        mode: MODE_VBLANK,
                        vblank_irq: true,
                        frame_ready: true,
                        window_line: 0,
                        stat_irq: self.stat_irq || self.stat & 0x10 != 0,
                        ..self
                    }
                } else {
                    PpuModel {
                        dot: (self.dot - 204) as u32,
                        ly,
                        mode: MODE_OAM,
                        stat_irq: self.stat_irq || self.stat & 0x20 != 0,
                        ..self
                    }
                };
                q.lyc_checked()
            } else {
                self
            }
        } else if self.mode == MODE_VBLANK {
            if self.dot >= 456 {
                let q = if self.ly + 1 > 153 {
                    PpuModel {
                        dot: (self.dot - 456) as u32,
                        ly: 0,
                        mode: MODE_OAM,
                        stat_irq: self.stat_irq || self.stat & 0x20 != 0,
                        ..self
                    }
                } else {
                    PpuModel { dot: (self.dot - 456) as u32, ly: (self.ly + 1) as u8, ..self }
                };
                q.lyc_checked()
            } else {
                self
            }
        } else {
            self
        }
    }

    /// The PPU after `cycles` T-cycles.
    pub open spec fn stepped(self, cycles: u32) -> PpuModel {
        if !self.lcd_on() {
            PpuModel { dot: 0, ly: 0, mode: MODE_HBLANK, stat: self.stat & 0xF8, ..self }
        } else {
            let q = PpuModel { dot: (self.dot + cycles) as u32, ..self }.advance_mode();
            PpuModel { stat: (q.stat & 0xF8) | q.mode, ..q }
        }
    }
}

/// The PPU state at power-on.
pub open spec fn ppu_boot_state() -> PpuModel {
    PpuModel {
        vram: Seq::new(0x2000, |i: int| 0u8),
        oam: Seq::new(0xA0, |i: int| 0u8),
        lcdc: 0x91,
        stat: 0x85,
        scy: 0,
        scx: 0,
        ly: 0,
        lyc: 0,
        bgp: 0xFC,
        obp0: 0xFF,
        obp1: 0xFF,
        wy: 0,
        wx: 0,
        mode: MODE_OAM,
        dot: 0,
        window_line: 0,
        framebuffer: Seq::new(92160, |i: int| 0xFFu8),
        vblank_irq: false,
        stat_irq: false,
        frame_ready: false,
    }
}

impl Ppu {
    pub open spec fn wf(&self) -> bool {
        self@.wf()
    }

    pub fn new() -> (p: Self)
        ensures
            p.wf(),
            p@ == ppu_boot_state(),
    {
        let p = Ppu {
            vram: [0; 0x2000],
            oam: [0; 0xA0],
            lcdc: 0x91,
            stat: 0x85,
            scy: 0,
            scx: 0,
            ly: 0,
            lyc: 0,
            bgp: 0xFC,
            obp0: 0xFF,
            obp1: 0xFF,
            wy: 0,
            wx: 0,
            mode: MODE_OAM,
            dot: 0,
            window_line: 0,
            framebuffer: [0xFF; FB_LEN],
            vblank_irq: false,
            stat_irq: false,
            frame_ready: false,
        };
        assert(p@.vram =~= Seq::new(0x2000, |i: int| 0u8));
        assert(p@.oam =~= Seq::new(0xA0, |i: int| 0u8));
        assert(p@.framebuffer =~= Seq::new(92160, |i: int| 0xFFu8));
        p
    }

    pub fn read_vram(&self, addr: u16) -> (r: u8)
        requires
            0x8000 <= addr <= 0x9FFF,
        ensures
            r == self@.vram[addr - 0x8000],
    {
        self.vram[(addr - 0x8000) as usize]
    }

    pub fn write_vram(&mut self, addr: u16, val: u8)
        requires
            0x8000 <= addr <= 0x9FFF,
        ensures
            final(self)@ == (PpuModel { vram: old(self)@.vram.update(addr - 0x8000, val), ..old(self)@ }),
    {
        self.vram[(addr - 0x8000) as usize] = val;
    }

    pub fn read_oam(&self, addr: u16) -> (r: u8)
        requires
            0xFE00 <= addr <= 0xFE9F,
        ensures
            r == self@.oam[addr - 0xFE00],
    {
        self.oam[(addr - 0xFE00) as usize]
    }

    pub fn write_oam(&mut self, addr: u16, val: u8)
        requires
            0xFE00 <= addr <= 0xFE9F,
        ensures
            final(self)@ == (PpuModel { oam: old(self)@.oam.update(addr - 0xFE00, val), ..old(self)@ }),
    {
        self.oam[(addr - 0xFE00) as usize] = val;
    }

    fn lcd_on(&self) -> (r: bool)
        ensures
            r == self@.lcd_on(),
    {
        self.lcdc & 0x80 != 0
    }

    pub fn step(&mut self, cycles: u32)
        requires
            old(self).wf(),
            old(self).lcdc & 0x80 != 0 ==> old(self).dot + cycles <= u32::MAX,
        ensures
            final(self).wf(),
            final(self)@ == old(self)@.stepped(cycles),
            cycles <= 80 && old(self).dot < 536 ==> final(self).dot < 536,
    {
        if !self.lcd_on() {
            self.dot = 0;
            self.ly = 0;
            self.mode = MODE_HBLANK;
            self.stat = (self.stat & 0xF8) | self.mode;
            assert(self.stat == old(self).stat & 0xF8) by {
                let s = old(self).stat;
                assert((s & 0xF8) | 0 == s & 0xF8) by (bit_vector);
            }
            return;
        }
        self.dot += cycles;
        if self.mode == MODE_OAM {
            if self.dot >= 80 {
                self.dot -= 80;
                self.mode = MODE_TRANSFER;
            }
        } else if self.mode == MODE_TRANSFER {
            if self.dot >= 172 {
                self.dot -= 172;
                self.mode = MODE_HBLANK;
                self.render_scanline();
                if self.stat & 0x08 != 0 {
                    self.stat_irq = true;
                }
            }
        } else if self.mode == MODE_HBLANK {
            if self.dot >= 204 {
                self.dot -= 204;
                self.ly += 1;
                if self.ly == 144 {
                    self.mode = MODE_VBLANK;
                    self.vblank_irq = true;
                    self.frame_ready = true;
                    self.window_line = 0;
                    if self.stat & 0x10 != 0 {
                        self.stat_irq = true;
                    }
                } else {
                    self.mode = MODE_OAM;
                    if self.stat & 0x20 != 0 {
                        self.stat_irq = true;
                    }
                }
                self.check_lyc();
            }
        } else if self.mode == MODE_VBLANK {
            if self.dot >= 456 {
                self.dot -= 456;
                self.ly += 1;
                if self.ly > 153 {
                    self.ly = 0;
                    self.mode = MODE_OAM;
                    if self.stat & 0x20 != 0 {
                        self.stat_irq = true;
                    }
                }
                self.check_lyc();
            }
        }
        self.stat = (self.stat & 0xF8) | self.mode;
    }

    fn check_lyc(&mut self)
        ensures
            final(self)@ == old(self)@.lyc_checked(),
    {
        if self.ly == self.lyc {
            self.stat |= 0x04;
            if self.stat & 0x40 != 0 {
                self.stat_irq = true;
            }
        } else {
            self.stat &= !0x04;
        }
    }

    fn render_scanline(&mut self)
        requires
            old(self).wf(),
        ensures
            final(self)@ == old(self)@.render_line(),
    {
        let ly = self.ly;
        if ly as usize >= SCREEN_H {
            return;
        }
        let ghost start = self@;
        let mut bg_color_idx = [0u8; 160];
        proof {
            lemma_paint_row_zero(start.framebuffer, ly as int, |c: int| start.bg_rgb(c));
            assert(self@ == (PpuModel {
                framebuffer: paint_row(start.framebuffer, ly as int, 0, |c: int| start.bg_rgb(c)),
                ..start
            }));
        }
        if self.lcdc & 0x01 != 0 {
            let use_window = self.lcdc & 0x20 != 0 && self.wy <= ly && self.wx <= 166;
            let mut x: usize = 0;
            while x < SCREEN_W
                invariant
                    self.wf(),
                    0 <= x <= 160,
                    ly == self.ly,
                    ly < 144,
                    use_window == start.window_active(),
                    start.lcdc & 0x01 != 0,
                    self@ == (PpuModel {
                        framebuffer: paint_row(start.framebuffer, ly as int, x as int, |c: int| start.bg_rgb(c)),
                        ..start
                    }),
                    forall|c: int| 0 <= c < x ==> bg_color_idx@[c] == start.bg_index(c),
                decreases 160 - x,
            {
                let color_num = self.bg_pixel(x, use_window);
                bg_color_idx[x] = color_num;
                let color = palette_color(self.bgp, color_num);
                proof {
                    lemma_paint_row_step(start.framebuffer, ly as int, x as int, |c: int| start.bg_rgb(c));
                }
                assert(self@.bg_color_num(x as int) == start.bg_color_num(x as int));
                assert((|c: int| start.bg_rgb(c))(x as int) == (color[0], color[1], color[2]));
                self.set_pixel(x, ly as usize, color);
                x += 1;
            }
            if use_window {
                self.window_line = self.window_line.wrapping_add(1);
            }
        } else {
            let mut x: usize = 0;
            while x < SCREEN_W
                invariant
                    self.wf(),
                    0 <= x <= 160,
                    ly == self.ly,
                    ly < 144,
                    start.lcdc & 0x01 == 0,
                    self@ == (PpuModel {
                        framebuffer: paint_row(start.framebuffer, ly as int, x as int, |c: int| start.bg_rgb(c)),
                        ..start
                    }),
                    forall|c: int| 0 <= c < 160 ==> bg_color_idx@[c] == 0,
                decreases 160 - x,
            {
                proof {
                    lemma_paint_row_step(start.framebuffer, ly as int, x as int, |c: int| start.bg_rgb(c));
                }
                let white = [255u8, 255, 255];
                assert((|c: int| start.bg_rgb(c))(x as int) == (white[0], white[1], white[2]));
                self.set_pixel(x, ly as usize, white);
                x += 1;
            }
        }
        assert(forall|c: int| 0 <= c < 160 ==> bg_color_idx@[c] == start.bg_index(c));
        if self.lcdc & 0x02 != 0 {
            self.render_sprites(ly, &bg_color_idx, Ghost(start));
            proof {
                lemma_paint_row_ext(start.framebuffer, ly as int, 160,
                    |x: int| start.composed_rgb(x), |x: int| start.line_rgb(x));
            }
        } else {
            proof {
                lemma_paint_row_ext(start.framebuffer, ly as int, 160,
                    |x: int| start.bg_rgb(x), |x: int| start.line_rgb(x));
            }
        }
    }

    /// The background colour number at column x of the current line.
    fn bg_pixel(&self, x: usize, use_window: bool) -> (r: u8)
        requires
            self.wf(),
            x < 160,
            use_window == self@.window_active(),
        ensures
            r == self@.bg_color_num(x as int),
            r <= 3,
    {
        let ly = self.ly;
        let bg_map_base: u16 = if self.lcdc & 0x08 != 0 { 0x9C00 } else { 0x9800 };
        let win_map_base: u16 = if self.lcdc & 0x40 != 0 { 0x9C00 } else { 0x9800 };
        let signed_tiles = self.lcdc & 0x10 == 0;
        let map_base: u16;
        let tile_x: u16;
        let tile_y: u16;
        let fine_x: u8;
        let fine_y: u8;
        if use_window && x as u8 + 7 >= self.wx {
            map_base = win_map_base;
            let wx = (x as u16 + 7).wrapping_sub(self.wx as u16);
            tile_x = wx / 8;
            fine_x = (wx % 8) as u8;
            tile_y = (self.window_line / 8) as u16;
            fine_y = self.window_line % 8;
        } else {
            map_base = bg_map_base;
            let bx = (x as u16 + self.scx as u16) & 0xFF;
            let by = (ly as u16 + self.scy as u16) & 0xFF;
            let sx = x as u16 + self.scx as u16;
            let sy = ly as u16 + self.scy as u16;
            assert(sx & 0xFF == sx % 256) by (bit_vector);
            assert(sy & 0xFF == sy % 256) by (bit_vector);
            tile_x = bx / 8;
            fine_x = (bx % 8) as u8;
            tile_y = by / 8;
            fine_y = (by % 8) as u8;
        }
        let map_addr = map_base + tile_y * 32 + tile_x;
        let tile_num = self.vram[(map_addr - 0x8000) as usize];
        let tile_addr: u16 = if signed_tiles {
            let signed = tile_num as i8 as i16;
            assert((tile_num as i8 as i16) as int == if tile_num < 128 { tile_num as int } else { tile_num - 256 })
                by (bit_vector);
            (0x9000i32 + (signed as i32) * 16) as u16
        } else {
            0x8000 + (tile_num as u16) * 16
        };
        let row_addr = tile_addr + (fine_y as u16) * 2;
        let lo = self.vram[(row_addr - 0x8000) as usize];
        let hi = self.vram[(row_addr + 1 - 0x8000) as usize];
        let bit = 7 - fine_x;
        assert((((hi >> bit) & 1) << 1) | ((lo >> bit) & 1) <= 3) by (bit_vector);
        (((hi >> bit) & 1) << 1) | ((lo >> bit) & 1)
    }

    pub(crate) fn set_pixel(&mut self, x: usize, y: usize, rgb: [u8; 3])
        requires
            old(self).wf(),
            x < 160,
            y < 144,
        ensures
            final(self)@ == (PpuModel {
                framebuffer: set_pixel_fb(old(self)@.framebuffer, x as int, y as int, (rgb[0], rgb[1], rgb[2])),
                ..old(self)@
            }),
    {
        let idx = (y * SCREEN_W + x) * 4;
        self.framebuffer[idx] = rgb[0];
        self.framebuffer[idx + 1] = rgb[1];
        self.framebuffer[idx + 2] = rgb[2];
        self.framebuffer[idx + 3] = 255;
    }
}

/// The RGB colour a palette register maps a colour number (0..=3) to.
pub fn palette_color(palette: u8, color_num: u8) -> (r: [u8; 3])
    requires
        color_num <= 3,
    ensures
        (r[0], r[1], r[2]) == palette_rgb(palette, color_num),
{
    let shade = (palette >> (color_num * 2)) & 0x03;
    if shade == 0 {
        [0xE0, 0xF8, 0xD0]
    } else if shade == 1 {
        [0x88, 0xC0, 0x70]
    } else if shade == 2 {
        [0x34, 0x68, 0x56]
    } else {
        [0x08, 0x18, 0x20]
    }
}

/// With the LCD on, the low bits of STAT report the PPU mode after every
/// step (the coincidence bit is left clear).
pub proof fn law_stat_reports_mode(p: PpuModel, cycles: u32)
    requires
        p.wf(),
        p.lcd_on(),
    ensures
        p.stepped(cycles).stat & 0x07 == p.stepped(cycles).mode,
        p.stepped(cycles).mode <= 3,
{
    let q = PpuModel { dot: (p.dot + cycles) as u32, ..p }.advance_mode();
    assert(q.mode <= 3);
    let (st, m) = (q.stat, q.mode);
    assert(m <= 3 ==> ((st & 0xF8) | m) & 0x07 == m) by (bit_vector);
}

/// With the LCD on, one step keeps the PPU well formed, moves LY on by at
/// most one line (wrapping after line 153 to 0), is in VBlank exactly on
/// lines 144..=153, and leaves the writable bits of STAT (3..=7) as they
/// were.
pub proof fn law_step_advances_line(p: PpuModel, cycles: u32)
    requires
        p.wf(),
        p.lcd_on(),
        p.dot + cycles <= u32::MAX,
    ensures
        ({
            let s = p.stepped(cycles);
            &&& s.wf()
            &&& s.ly <= 153
            &&& s.ly == p.ly || s.ly == (p.ly + 1) % 154
            &&& (s.mode == MODE_VBLANK) == (s.ly >= 144)
            &&& s.stat & 0xF8 == p.stat & 0xF8
        }),
{
    let q = PpuModel { dot: (p.dot + cycles) as u32, ..p }.advance_mode();
    assert(q.stat == p.stat || q.stat == p.stat | 0x04 || q.stat == p.stat & !0x04u8);
    assert(q.mode <= 3);
    let (st, m, st0) = (q.stat, q.mode, p.stat);
    assert(m <= 3 && (st == st0 || st == st0 | 0x04 || st == st0 & !0x04u8)
        ==> ((st & 0xF8) | m) & 0xF8 == st0 & 0xF8) by (bit_vector);
}

/// Turning the LCD off resets LY and the dot counter and enters HBlank.
pub proof fn law_lcd_off_resets(p: PpuModel, cycles: u32)
    requires
        !p.lcd_on(),
    ensures
        p.stepped(cycles).ly == 0,
        p.stepped(cycles).dot == 0,
        p.stepped(cycles).mode == MODE_HBLANK,
{
}

/// Every pixel of a drawn line is opaque, and other lines are untouched.
pub proof fn law_rendered_line(p: PpuModel, x: int, y: int)
    requires
        p.wf(),
        p.ly < 144,
        0 <= x < 160,
        0 <= y < 144,
    ensures
        y == p.ly ==> p.render_line().framebuffer[(y * 160 + x) * 4 + 3] == 255,
        y != p.ly ==> forall|c: int| 0 <= c < 4 ==>
            #[trigger] p.render_line().framebuffer[(y * 160 + x) * 4 + c] == p.framebuffer[(y * 160 + x) * 4 + c],
{
    let i = (y * 160 + x) * 4 + 3;
    if y == p.ly {
        lemma_fundamental_div_mod_converse(i - y * 640, 4, x, 3);
    } else {
        assert forall|c: int| 0 <= c < 4 implies
            #[trigger] p.render_line().framebuffer[(y * 160 + x) * 4 + c] == p.framebuffer[(y * 160 + x) * 4 + c] by {
            if y < p.ly {
                assert((y * 160 + x) * 4 + c < p.ly * 640) by (nonlinear_arith)
                    requires y < p.ly, 0 <= x < 160, 0 <= c < 4;
            } else {
                assert((y * 160 + x) * 4 + c >= p.ly * 640 + 640) by (nonlinear_arith)
                    requires y > p.ly, 0 <= x < 160, 0 <= c < 4;
            }
        }
    }
}

} // verus!
