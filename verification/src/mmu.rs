use vstd::prelude::*;
use crate::apu::{Apu, ApuModel, apu_boot_state};
use crate::cartridge::{Cartridge, CartModel, cart_for_rom};
use crate::joypad::Joypad;
use crate::ppu::{Ppu, PpuModel, ppu_boot_state};
use crate::timer::{Timer, law_timer_request_stays};

verus! {

/// The memory bus: routes CPU reads and writes to the cartridge, video
/// memory, work RAM, the I/O registers of each unit, and high RAM.
pub struct Mmu {
    pub cart: Cartridge,
    pub ppu: Ppu,
    pub timer: Timer,
    pub joypad: Joypad,
    pub apu: Apu,
    pub wram: [u8; 0x2000],
    pub hram: [u8; 0x7F],
    pub if_flag: u8,
    pub ie_flag: u8,
    pub serial_data: u8,
    pub serial_ctrl: u8,
    pub dma_active: bool,
}

/// The abstract state of the bus and everything behind it.
pub ghost struct MmuModel {
    pub cart: CartModel,
    pub ppu: PpuModel,
    pub timer: Timer,
    pub joypad: Joypad,
    pub apu: ApuModel,
    pub wram: Seq<u8>,
    pub hram: Seq<u8>,
    pub if_flag: u8,
    pub ie_flag: u8,
    pub serial_data: u8,
    pub serial_ctrl: u8,
    pub dma_active: bool,
}

impl View for Mmu {
    type V = MmuModel;

    open spec fn view(&self) -> MmuModel {
        MmuModel {
            cart: self.cart@,
            ppu: self.ppu@,
            timer: self.timer,
            joypad: self.joypad,
            apu: self.apu@,
            wram: self.wram@,
            hram: self.hram@,
            if_flag: self.if_flag,
            ie_flag: self.ie_flag,
            serial_data: self.serial_data,
            serial_ctrl: self.serial_ctrl,
            dma_active: self.dma_active,
        }
    }
}

impl MmuModel {
    pub open spec fn wf(self) -> bool {
        &&& self.cart.wf()
        &&& self.ppu.wf()
        &&& self.timer.wf()
        &&& self.apu.wf()
        &&& self.wram.len() == 0x2000
        &&& self.hram.len() == 0x7F
    }

    /// The interrupts that are both requested and enabled.
    pub open spec fn pending(self) -> u8 {
        self.if_flag & self.ie_flag & 0x1F
    }

    /// What a CPU read of `addr` returns.
    #[verifier::opaque]
    pub open spec fn read(self, addr: u16) -> u8 {
        if addr <= 0x7FFF {
            self.cart.read(addr)
        } else if addr <= 0x9FFF {
            self.ppu.vram[addr - 0x8000]
        } else if addr <= 0xBFFF {
            self.cart.read(addr)
        } else if addr <= 0xDFFF {
            self.wram[addr - 0xC000]
        } else if addr <= 0xFDFF {
            self.wram[addr - 0xE000]
        } else if addr <= 0xFE9F {
            self.ppu.oam[addr - 0xFE00]
        } else if addr <= 0xFEFF {
            0xFF
        } else if addr == 0xFF00 {
            self.joypad.p1()
        } else if addr == 0xFF01 {
            self.serial_data
        } else if addr == 0xFF02 {
            self.serial_ctrl
        } else if addr == 0xFF04 {
            (self.timer.div / 256) as u8
        } else if addr == 0xFF05 {
            self.timer.tima
        } else if addr == 0xFF06 {
            self.timer.tma
        } else if addr == 0xFF07 {
            self.timer.tac | 0xF8
        } else if addr == 0xFF0F {
            self.if_flag | 0xE0
        } else if 0xFF10 <= addr <= 0xFF3F {
            self.apu.read(addr)
        } else if addr == 0xFF40 {
            self.ppu.lcdc
        } else if addr == 0xFF41 {
            self.ppu.stat | 0x80
        } else if addr == 0xFF42 {
            self.ppu.scy
        } else if addr == 0xFF43 {
            self.ppu.scx
        } else if addr == 0xFF44 {
            self.ppu.ly
        } else if addr == 0xFF45 {
            self.ppu.lyc
        } else if addr == 0xFF46 {
            0xFF
        } else if addr == 0xFF47 {
            self.ppu.bgp
        } else if addr == 0xFF48 {
            self.ppu.obp0
        } else if addr == 0xFF49 {
            self.ppu.obp1
        } else if addr == 0xFF4A {
            self.ppu.wy
        } else if addr == 0xFF4B {
            self.ppu.wx
        } else if 0xFF80 <= addr <= 0xFFFE {
            self.hram[addr - 0xFF80]
        } else if addr == 0xFFFF {
            self.ie_flag
        } else {
            0xFF
        }
    }

    /// The bus after the first `n` bytes of an OAM DMA from `src` are copied.
    pub open spec fn dma_copied(self, src: int, n: nat) -> MmuModel
        decreases n,
    {
        if n == 0 {
            self
        } else {
            let m = self.dma_copied(src, (n - 1) as nat);
            let b = m.read((src + n - 1) as u16);
            MmuModel { ppu: PpuModel { oam: m.ppu.oam.update(n - 1, b), ..m.ppu }, ..m }
        }
    }

    /// The bus after a CPU write of `val` to `addr`.
    #[verifier::opaque]
    pub open spec fn write(self, addr: u16, val: u8) -> MmuModel {
        if addr <= 0xFEFF {
            self.write_memory(addr, val)
        } else if addr <= 0xFF3F {
            self.write_io_low(addr, val)
        } else {
            self.write_io_high(addr, val)
        }
    }

    /// A write to the cartridge, VRAM, work RAM, or OAM (addresses below 0xFF00).
    pub open spec fn write_memory(self, addr: u16, val: u8) -> MmuModel {
        if addr <= 0x7FFF {
            MmuModel { cart: self.cart.write(addr, val), ..self }
        } else if addr <= 0x9FFF {
            MmuModel { ppu: PpuModel { vram: self.ppu.vram.update(addr - 0x8000, val), ..self.ppu }, ..self }
        } else if addr <= 0xBFFF {
            MmuModel { cart: self.cart.write(addr, val), ..self }
        } else if addr <= 0xDFFF {
            MmuModel { wram: self.wram.update(addr - 0xC000, val), ..self }
        } else if addr <= 0xFDFF {
            MmuModel { wram: self.wram.update(addr - 0xE000, val), ..self }
        } else if addr <= 0xFE9F {
            MmuModel { ppu: PpuModel { oam: self.ppu.oam.update(addr - 0xFE00, val), ..self.ppu }, ..self }
        } else if addr <= 0xFEFF {
            self
        } else {
            self
        }
    }

    /// A write to the joypad, serial, timer, IF, or sound registers (0xFF00..=0xFF3F).
    pub open spec fn write_io_low(self, addr: u16, val: u8) -> MmuModel {
        if addr == 0xFF00 {
            MmuModel { joypad: Joypad { select: val & 0x30, ..self.joypad }, ..self }
        } else if addr == 0xFF01 {
            MmuModel { serial_data: val, ..self }
        } else if addr == 0xFF02 {
            MmuModel { serial_ctrl: val, ..self }
        } else if addr == 0xFF04 {
            MmuModel { timer: Timer { div: 0, ..self.timer }, ..self }
        } else if addr == 0xFF05 {
            MmuModel { timer: Timer { tima: val, ..self.timer }, ..self }
        } else if addr == 0xFF06 {
            MmuModel { timer: Timer { tma: val, ..self.timer }, ..self }
        } else if addr == 0xFF07 {
            MmuModel { timer: Timer { tac: val, ..self.timer }, ..self }
        } else if addr == 0xFF0F {
            MmuModel { if_flag: val & 0x1F, ..self }
        } else if 0xFF10 <= addr <= 0xFF3F {
            MmuModel { apu: self.apu.write(addr, val), ..self }
        } else {
            self
        }
    }

    /// A write to the LCD registers, DMA, high RAM, or IE (0xFF40..=0xFFFF).
    pub open spec fn write_io_high(self, addr: u16, val: u8) -> MmuModel {
        if addr == 0xFF40 {
            MmuModel { ppu: PpuModel { lcdc: val, ..self.ppu }, ..self }
        } else if addr == 0xFF41 {
            MmuModel { ppu: PpuModel { stat: (self.ppu.stat & 0x07) | (val & 0xF8), ..self.ppu }, ..self }
        } else if addr == 0xFF42 {
            MmuModel { ppu: PpuModel { scy: val, ..self.ppu }, ..self }
        } else if addr == 0xFF43 {
            MmuModel { ppu: PpuModel { scx: val, ..self.ppu }, ..self }
        } else if addr == 0xFF44 {
            self
        } else if addr == 0xFF45 {
            MmuModel { ppu: PpuModel { lyc: val, ..self.ppu }, ..self }
        } else if addr == 0xFF46 {
            let m = MmuModel { dma_active: true, ..self }.dma_copied(val * 256, 0xA0);
            MmuModel { dma_active: false, ..m }
        } else if addr == 0xFF47 {
            MmuModel { ppu: PpuModel { bgp: val, ..self.ppu }, ..self }
        } else if addr == 0xFF48 {
            MmuModel { ppu: PpuModel { obp0: val, ..self.ppu }, ..self }
        } else if addr == 0xFF49 {
            MmuModel { ppu: PpuModel { obp1: val, ..self.ppu }, ..self }
        } else if addr == 0xFF4A {
            MmuModel { ppu: PpuModel { wy: val, ..self.ppu }, ..self }
        } else if addr == 0xFF4B {
            MmuModel { ppu: PpuModel { wx: val, ..self.ppu }, ..self }
        } else if 0xFF80 <= addr <= 0xFFFE {
            MmuModel { hram: self.hram.update(addr - 0xFF80, val), ..self }
        } else if addr == 0xFFFF {
            MmuModel { ie_flag: val, ..self }
        } else {
            self
        }
    }

    /// Whether `cycles` T-cycles can be run without a counter overflowing.
    pub open spec fn can_tick(self, cycles: u32) -> bool {
        &&& self.timer.tac & 4 != 0 ==> self.timer.tima_acc + cycles <= u32::MAX
        &&& self.ppu.lcd_on() ==> self.ppu.dot + cycles <= u32::MAX
        &&& self.apu.enabled ==> self.apu.frame_cycle_acc + cycles <= i32::MAX
        &&& self.apu.enabled ==> self.apu.sample_acc + cycles <= i32::MAX
    }

    /// The bus after every timed unit runs for `cycles` T-cycles and their
    /// interrupt requests are folded into IF.
    pub open spec fn ticked(self, cycles: u32) -> MmuModel {
        let t = self.timer.stepped(cycles);
        let if1 = if t.irq { self.if_flag | 0x04 } else { self.if_flag };
        let p = self.ppu.stepped(cycles);
        let if2 = if p.vblank_irq { if1 | 0x01 } else { if1 };
        let if3 = if p.stat_irq { if2 | 0x02 } else { if2 };
        let if4 = if self.joypad.irq { if3 | 0x10 } else { if3 };
        MmuModel {
            timer: Timer { irq: false, ..t },
            ppu: PpuModel { vblank_irq: false, stat_irq: false, ..p },
            joypad: Joypad { irq: false, ..self.joypad },
            apu: self.apu.stepped(cycles as int),
            if_flag: if4,
            ..self
        }
    }
}

/// The bus of a freshly booted machine.
pub open spec fn mmu_boot_state(rom: Seq<u8>) -> MmuModel {
    MmuModel {
        cart: cart_for_rom(rom),
        ppu: ppu_boot_state(),
        timer: Timer { div: 0xAB00, tima: 0, tma: 0, tac: 0xF8, tima_acc: 0, irq: false },
        joypad: Joypad { select: 0x30, direction: 0, action: 0, irq: false },
        apu: apu_boot_state(),
        wram: Seq::new(0x2000, |i: int| 0u8),
        hram: Seq::new(0x7F, |i: int| 0u8),
        if_flag: 0xE1,
        ie_flag: 0,
        serial_data: 0,
        serial_ctrl: 0,
        dma_active: false,
    }
}

impl Mmu {
    pub open spec fn wf(&self) -> bool {
        self@.wf()
    }

    pub fn new(rom: Vec<u8>) -> (m: Self)
        requires
            rom@.len() <= isize::MAX,
        ensures
            m.wf(),
            m@ == mmu_boot_state(rom@),
    {
        let m = Mmu {
            cart: Cartridge::new(rom),
            ppu: Ppu::new(),
            timer: Timer::new(),
            joypad: Joypad::new(),
            apu: Apu::new(),
            wram: [0; 0x2000],
            hram: [0; 0x7F],
            if_flag: 0xE1,
            ie_flag: 0,
            serial_data: 0,
            serial_ctrl: 0,
            dma_active: false,
        };
        assert(m@.wram =~= Seq::new(0x2000, |i: int| 0u8));
        assert(m@.hram =~= Seq::new(0x7F, |i: int| 0u8));
        m
    }

    pub fn read(&self, addr: u16) -> (r: u8)
        requires
            self.wf(),
        ensures
            r == self@.read(addr),
    {
        proof {
            reveal(MmuModel::read);
        }
        if addr <= 0x7FFF {
            self.cart.read(addr)
        } else if addr <= 0x9FFF {
            self.ppu.read_vram(addr)
        } else if addr <= 0xBFFF {
            self.cart.read(addr)
        } else if addr <= 0xDFFF {
            self.wram[(addr - 0xC000) as usize]
        } else if addr <= 0xFDFF {
            self.wram[(addr - 0xE000) as usize]
        } else if addr <= 0xFE9F {
            self.ppu.read_oam(addr)
        } else if addr <= 0xFEFF {
            0xFF
        } else if addr == 0xFF00 {
            self.joypad.read()
        } else if addr == 0xFF01 {
            self.serial_data
        } else if addr == 0xFF02 {
            self.serial_ctrl
        } else if addr == 0xFF04 {
            self.timer.div()
        } else if addr == 0xFF05 {
            self.timer.tima
        } else if addr == 0xFF06 {
            self.timer.tma
        } else if addr == 0xFF07 {
            self.timer.tac | 0xF8
        } else if addr == 0xFF0F {
            self.if_flag | 0xE0
        } else if 0xFF10 <= addr && addr <= 0xFF3F {
            self.apu.read(addr)
        } else if addr == 0xFF40 {
            self.ppu.lcdc
        } else if addr == 0xFF41 {
            self.ppu.stat | 0x80
        } else if addr == 0xFF42 {
            self.ppu.scy
        } else if addr == 0xFF43 {
            self.ppu.scx
        } else if addr == 0xFF44 {
            self.ppu.ly
        } else if addr == 0xFF45 {
            self.ppu.lyc
        } else if addr == 0xFF46 {
            0xFF
        } else if addr == 0xFF47 {
            self.ppu.bgp
        } else if addr == 0xFF48 {
            self.ppu.obp0
        } else if addr == 0xFF49 {
            self.ppu.obp1
        } else if addr == 0xFF4A {
            self.ppu.wy
        } else if addr == 0xFF4B {
            self.ppu.wx
        } else if 0xFF80 <= addr && addr <= 0xFFFE {
            self.hram[(addr - 0xFF80) as usize]
        } else if addr == 0xFFFF {
            self.ie_flag
        } else {
            0xFF
        }
    }

    pub fn write(&mut self, addr: u16, val: u8)
        requires
            old(self).wf(),
        ensures
            final(self).ppu.dot == old(self).ppu.dot,
            final(self).wf(),
            final(self)@ == old(self)@.write(addr, val),
    {
        proof {
            reveal(MmuModel::write);
        }
        if addr <= 0xFEFF {
            self.write_memory(addr, val);
        } else if addr <= 0xFF3F {
            self.write_io_low(addr, val);
        } else {
            self.write_io_high(addr, val);
        }
    }

    fn write_memory(&mut self, addr: u16, val: u8)
        requires
            old(self).wf(),
            addr <= 0xFEFF,
        ensures
            final(self).ppu.dot == old(self).ppu.dot,
            final(self).wf(),
            final(self)@ == old(self)@.write_memory(addr, val),
    {
        if addr <= 0x7FFF {
            self.cart.write(addr, val);
        } else if addr <= 0x9FFF {
            self.ppu.write_vram(addr, val);
        } else if addr <= 0xBFFF {
            self.cart.write(addr, val);
        } else if addr <= 0xDFFF {
            self.wram[(addr - 0xC000) as usize] = val;
        } else if addr <= 0xFDFF {
            self.wram[(addr - 0xE000) as usize] = val;
        } else if addr <= 0xFE9F {
            self.ppu.write_oam(addr, val);
        } else if addr <= 0xFEFF {
        }
    }

    fn write_io_low(&mut self, addr: u16, val: u8)
        requires
            old(self).wf(),
            0xFF00 <= addr <= 0xFF3F,
        ensures
            final(self).ppu.dot == old(self).ppu.dot,
            final(self).wf(),
            final(self)@ == old(self)@.write_io_low(addr, val),
    {
        if addr == 0xFF00 {
            self.joypad.write(val);
        } else if addr == 0xFF01 {
            self.serial_data = val;
        } else if addr == 0xFF02 {
            self.serial_ctrl = val;
        } else if addr == 0xFF04 {
            self.timer.reset_div();
        } else if addr == 0xFF05 {
            self.timer.tima = val;
        } else if addr == 0xFF06 {
            self.timer.tma = val;
        } else if addr == 0xFF07 {
            self.timer.tac = val;
        } else if addr == 0xFF0F {
            self.if_flag = val & 0x1F;
        } else if 0xFF10 <= addr && addr <= 0xFF3F {
            self.apu.write(addr, val);
        }
    }

    fn write_io_high(&mut self, addr: u16, val: u8)
        requires
            old(self).wf(),
            0xFF40 <= addr,
        ensures
            final(self).ppu.dot == old(self).ppu.dot,
            final(self).wf(),
            final(self)@ == old(self)@.write_io_high(addr, val),
    {
        if addr == 0xFF40 {
            self.ppu.lcdc = val;
        } else if addr == 0xFF41 {
            self.ppu.stat = (self.ppu.stat & 0x07) | (val & 0xF8);
        } else if addr == 0xFF42 {
            self.ppu.scy = val;
        } else if addr == 0xFF43 {
            self.ppu.scx = val;
        } else if addr == 0xFF44 {
        } else if addr == 0xFF45 {
            self.ppu.lyc = val;
        } else if addr == 0xFF46 {
            self.do_dma(val);
        } else if addr == 0xFF47 {
            self.ppu.bgp = val;
        } else if addr == 0xFF48 {
            self.ppu.obp0 = val;
        } else if addr == 0xFF49 {
            self.ppu.obp1 = val;
        } else if addr == 0xFF4A {
            self.ppu.wy = val;
        } else if addr == 0xFF4B {
            self.ppu.wx = val;
        } else if 0xFF80 <= addr && addr <= 0xFFFE {
            self.hram[(addr - 0xFF80) as usize] = val;
        } else if addr == 0xFFFF {
            self.ie_flag = val;
        }
    }

    /// OAM DMA: copies 0xA0 bytes from `val * 0x100` into OAM.
    fn do_dma(&mut self, val: u8)
        requires
            old(self).wf(),
        ensures
            final(self).ppu.dot == old(self).ppu.dot,
            final(self).wf(),
            final(self)@ == (MmuModel {
                dma_active: false,
                ..(MmuModel { dma_active: true, ..old(self)@ }).dma_copied(val * 256, 0xA0)
            }),
    {
        self.dma_active = true;
        let ghost start = self@;
        let src = (val as u16) << 8;
        assert(src == val * 256) by (bit_vector)
            requires src == (val as u16) << 8u16;
        let mut i: u16 = 0;
        while i < 0xA0
            invariant
                self.wf(),
                0 <= i <= 0xA0,
                src == val * 256,
                self@ == start.dma_copied(src as int, i as nat),
                self.ppu.dot == start.ppu.dot,
            decreases 0xA0 - i,
        {
            let b = self.read(src + i);
            self.ppu.write_oam(0xFE00 + i, b);
            i += 1;
        }
        self.dma_active = false;
    }

    /// Advance all timing-sensitive subsystems by the given number of T-cycles
    /// and fold any newly-raised interrupt sources into IF.
    pub fn tick_components(&mut self, cycles: u32)
        requires
            old(self).wf(),
            old(self)@.can_tick(cycles),
        ensures
            final(self).wf(),
            final(self)@ == old(self)@.ticked(cycles),
    {
        self.timer.step(cycles);
        if self.timer.irq {
            self.timer.irq = false;
            self.if_flag |= 0x04;
        }

        self.ppu.step(cycles);
        if self.ppu.vblank_irq {
            self.ppu.vblank_irq = false;
            self.if_flag |= 0x01;
        }
        if self.ppu.stat_irq {
            self.ppu.stat_irq = false;
            self.if_flag |= 0x02;
        }

        if self.joypad.irq {
            self.joypad.irq = false;
            self.if_flag |= 0x10;
        }

        self.apu.step(cycles);
    }
}

/// Whether `addr` is backed by plain RAM: work RAM, its echo, or high RAM.
pub open spec fn is_ram(addr: u16) -> bool {
    (0xC000 <= addr <= 0xFDFF) || (0xFF80 <= addr <= 0xFFFE)
}

/// The RAM cell an address selects: work RAM cells 0..0x2000 (the echo
/// region aliases the start of work RAM), then high RAM.
pub open spec fn ram_cell(addr: u16) -> int {
    if addr <= 0xDFFF {
        addr - 0xC000
    } else if addr <= 0xFDFF {
        addr - 0xE000
    } else {
        0x2000 + (addr - 0xFF80)
    }
}

/// A read of RAM returns the last value written to the same cell.
pub proof fn law_ram_read_after_write(m: MmuModel, addr: u16, val: u8)
    requires
        m.wf(),
        is_ram(addr),
    ensures
        m.write(addr, val).read(addr) == val,
        m.write(addr, val).wf(),
{
    reveal(MmuModel::read);
    reveal(MmuModel::write);
}

/// A write to one RAM cell changes nothing else: reads of every other
/// address, the interrupt registers and the PPU are unchanged.
pub proof fn law_ram_write_frame(m: MmuModel, addr: u16, other: u16, val: u8)
    requires
        m.wf(),
        is_ram(addr),
        !(is_ram(other) && ram_cell(other) == ram_cell(addr)),
    ensures
        m.write(addr, val).read(other) == m.read(other),
        m.write(addr, val).if_flag == m.if_flag,
        m.write(addr, val).ie_flag == m.ie_flag,
        m.write(addr, val).ppu == m.ppu,
{
    reveal(MmuModel::read);
    reveal(MmuModel::write);
}

/// The echo region 0xE000..=0xFDFF mirrors work RAM 0xC000..=0xDDFF.
pub proof fn law_echo_ram(m: MmuModel, addr: u16)
    requires
        0xE000 <= addr <= 0xFDFF,
    ensures
        m.read(addr) == m.read((addr - 0x2000) as u16),
{
    reveal(MmuModel::read);
}

/// IF keeps only its five request bits; the three unused bits read as 1.
pub proof fn law_if_register(m: MmuModel, val: u8)
    ensures
        m.write(0xFF0F, val).read(0xFF0F) == (val & 0x1F) | 0xE0,
{
    reveal(MmuModel::read);
    reveal(MmuModel::write);
}

/// A write to video RAM is read back.
pub proof fn law_vram_read_after_write(m: MmuModel, addr: u16, val: u8)
    requires
        m.wf(),
        0x8000 <= addr <= 0x9FFF,
    ensures
        m.write(addr, val).read(addr) == val,
{
    reveal(MmuModel::read);
    reveal(MmuModel::write);
}

proof fn lemma_fold_requests(f: u8, t: bool, v: bool, s: bool, j: bool)
    by (bit_vector)
    ensures
        ({
            let i1 = if t { f | 0x04 } else { f };
            let i2 = if v { i1 | 0x01 } else { i1 };
            let i3 = if s { i2 | 0x02 } else { i2 };
            let g = if j { i3 | 0x10 } else { i3 };
            &&& g & f == f
            &&& (g & !f) & !0x17u8 == 0
            &&& t ==> g & 0x04 != 0
            &&& v ==> g & 0x01 != 0
            &&& s ==> g & 0x02 != 0
            &&& j ==> g & 0x10 != 0
        }),
{
}

/// Running the timed units folds their interrupt requests into IF: no bit
/// of IF is cleared, only the timer, VBlank, STAT and joypad bits can be
/// set, a request already raised in a unit reaches IF, and every unit's
/// request flag is cleared once folded in.
pub proof fn law_tick_folds_requests(m: MmuModel, cycles: u32)
    ensures
        ({
            let n = m.ticked(cycles);
            &&& n.if_flag & m.if_flag == m.if_flag
            &&& (n.if_flag & !m.if_flag) & !0x17u8 == 0
            &&& !n.timer.irq && !n.ppu.vblank_irq && !n.ppu.stat_irq && !n.joypad.irq
            &&& m.timer.irq ==> n.if_flag & 0x04 != 0
            &&& m.ppu.vblank_irq ==> n.if_flag & 0x01 != 0
            &&& m.ppu.stat_irq ==> n.if_flag & 0x02 != 0
            &&& m.joypad.irq ==> n.if_flag & 0x10 != 0
        }),
{
    let t = m.timer.stepped(cycles);
    let p = m.ppu.stepped(cycles);
    if m.timer.irq {
        law_timer_request_stays(m.timer, cycles);
    }
    assert(m.ppu.vblank_irq ==> p.vblank_irq);
    assert(m.ppu.stat_irq ==> p.stat_irq);
    lemma_fold_requests(m.if_flag, t.irq, p.vblank_irq, p.stat_irq, m.joypad.irq);
}

} // verus!
