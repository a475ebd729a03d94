use vstd::prelude::*;
use crate::cpu::Cpu;
use crate::joypad::Button;
use crate::mmu::{Mmu, MmuModel, mmu_boot_state};

verus! {

/// T-cycles in one video frame: 4194304 Hz / 59.7275 fps.
pub const CYCLES_PER_FRAME: u32 = 70224;

/// The whole machine: the CPU and everything on its bus.
pub struct GameBoy {
    pub cpu: Cpu,
    pub mmu: Mmu,
}

/// The machine state the frame loop works on.
pub ghost struct GameBoyModel {
    pub cpu: Cpu,
    pub mmu: MmuModel,
}

impl View for GameBoy {
    type V = GameBoyModel;

    open spec fn view(&self) -> GameBoyModel {
        GameBoyModel { cpu: self.cpu, mmu: self.mmu@ }
    }
}

impl GameBoyModel {
    /// The machine invariant: a well-formed bus whose PPU dot counter stays
    /// within one mode's span (so no counter can overflow while running).
    pub open spec fn wf(self) -> bool {
        self.mmu.wf() && self.mmu.ppu.dot < 536
    }

    /// One CPU step followed by the timed units catching up: the new state
    /// and the T-cycles it took.
    pub open spec fn stepped(self) -> (GameBoyModel, u32) {
        let (c, m, cycles) = self.cpu.step_spec(self.mmu);
        (GameBoyModel { cpu: c, mmu: m.ticked(cycles) }, cycles)
    }

    /// The machine after stepping until at least a frame's worth of cycles
    /// has run, counting from `total` cycles already run.
    #[verifier::opaque]
    pub open spec fn run_from(self, total: int) -> GameBoyModel
        decreases (if total >= 70224 { 0 } else { 70224 - total }),
    {
        if total >= 70224 {
            self
        } else {
            let (g, cycles) = self.stepped();
            if cycles == 0 { self } else { g.run_from(total + cycles) }
        }
    }

    /// The machine after one video frame.
    pub open spec fn frame(self) -> GameBoyModel {
        self.run_from(0)
    }
}

proof fn lemma_run_from_unfold(g: GameBoyModel, total: int)
    ensures
        g.run_from(total) == (if total >= 70224 {
            g
        } else if g.stepped().1 == 0 {
            g
        } else {
            g.stepped().0.run_from(total + g.stepped().1)
        }),
{
    reveal(GameBoyModel::run_from);
}

impl GameBoy {
    pub open spec fn wf(&self) -> bool {
        self@.wf()
    }

    pub fn new(rom: Vec<u8>) -> (gb: Self)
        requires
            rom@.len() <= isize::MAX,
        ensures
            gb.wf(),
            gb.cpu == Cpu::boot_state(),
            gb.mmu@ == mmu_boot_state(rom@),
    {
        GameBoy { cpu: Cpu::new(), mmu: Mmu::new(rom) }
    }

    /// One CPU step with the timed units catching up.
    pub fn step(&mut self) -> (cycles: u32)
        requires
            old(self).wf(),
        ensures
            final(self).wf(),
            (final(self)@, cycles) == old(self)@.stepped(),
            4 <= cycles <= 44,
    {
        proof {
            reveal(GameBoyModel::stepped);
        }
        let cycles = self.cpu.step(&mut self.mmu);
        self.mmu.tick_components(cycles);
        cycles
    }

    /// Runs the machine for one video frame (at least 70224 T-cycles).
    pub fn run_frame(&mut self)
        requires
            old(self).wf(),
        ensures
            final(self).wf(),
            final(self)@ == old(self)@.frame(),
    {
        let ghost target = self@.frame();
        let mut total = 0u32;
        while total < CYCLES_PER_FRAME
            invariant
                self.wf(),
                total <= 70224 + 44,
                target == self@.run_from(total as int),
            decreases 70224 + 44 - total,
        {
            let ghost before = self@;
            let cycles = self.step();
            proof {
                lemma_run_from_unfold(before, total as int);
            }
            total += cycles;
        }
        proof {
            lemma_run_from_unfold(self@, total as int);
        }
    }
}

/// The joypad button for a host key code (0..=7: Right, Left, Up, Down, A,
/// B, Select, Start).
pub fn button_from_code(code: u32) -> (b: Option<Button>)
    ensures
        b == (if code == 0 {
            Some(Button::Right)
        } else if code == 1 {
            Some(Button::Left)
        } else if code == 2 {
            Some(Button::Up)
        } else if code == 3 {
            Some(Button::Down)
        } else if code == 4 {
            Some(Button::A)
        } else if code == 5 {
            Some(Button::B)
        } else if code == 6 {
            Some(Button::Select)
        } else if code == 7 {
            Some(Button::Start)
        } else {
            None
        }),
{
    match code {
        0 => Some(Button::Right),
        1 => Some(Button::Left),
        2 => Some(Button::Up),
        3 => Some(Button::Down),
        4 => Some(Button::A),
        5 => Some(Button::B),
        6 => Some(Button::Select),
        7 => Some(Button::Start),
        _ => None,
    }
}

/// A freshly loaded machine starts at 0x0100 with SP at 0xFFFE, and reads of
/// the cartridge area 0x0000..=0x7FFF give the ROM's bytes, 0xFF past its end.
pub proof fn law_boot_maps_rom(rom: Seq<u8>, addr: u16)
    requires
        rom.len() <= isize::MAX,
        addr <= 0x7FFF,
    ensures
        Cpu::boot_state().pc == 0x0100,
        Cpu::boot_state().sp == 0xFFFE,
        mmu_boot_state(rom).read(addr) == if addr < rom.len() { rom[addr as int] } else { 0xFFu8 },
{
    reveal(MmuModel::read);
    let cart = mmu_boot_state(rom).cart;
    assert((1usize & 0x1Fusize) == 1 && (1usize | (0usize << 5usize)) == 1) by (bit_vector);
    assert(cart.rom_bank_count >= 2);
    assert(1int % (cart.rom_bank_count as int) == 1) by (nonlinear_arith)
        requires cart.rom_bank_count >= 2;
    assert(cart.effective_bank() == 1);
    assert(!cart.mbc1_mode1());
}

} // verus!
