use vstd::prelude::*;

verus! {

/// The memory bank controller named by the cartridge header.
#[derive(Clone, Copy, PartialEq, Eq, Structural, Debug)]
pub enum MbcType {
    RomOnly,
    Mbc1,
    Mbc3,
    Mbc5,
}

/// A cartridge: ROM, external RAM, and the bank controller's registers.
pub struct Cartridge {
    pub rom: Vec<u8>,
    pub ram: Vec<u8>,
    pub mbc_type: MbcType,
    pub rom_bank: usize,
    pub ram_bank: usize,
    pub ram_enabled: bool,
    pub banking_mode: u8,
    pub rom_bank_count: usize,
}

/// The abstract state of a cartridge.
pub ghost struct CartModel {
    pub rom: Seq<u8>,
    pub ram: Seq<u8>,
    pub mbc_type: MbcType,
    pub rom_bank: usize,
    pub ram_bank: usize,
    pub ram_enabled: bool,
    pub banking_mode: u8,
    pub rom_bank_count: usize,
}

/// The controller type for header byte 0x147.
pub open spec fn mbc_of(code: u8) -> MbcType {
    if code == 0 {
        MbcType::RomOnly
    } else if 0x01 <= code <= 0x03 {
        MbcType::Mbc1
    } else if 0x0F <= code <= 0x13 {
        MbcType::Mbc3
    } else if 0x19 <= code <= 0x1E {
        MbcType::Mbc5
    } else {
        MbcType::RomOnly
    }
}

/// The external RAM size, in bytes, for header byte 0x149.
pub open spec fn ram_size_of(code: u8) -> nat {
    if code == 1 {
        2 * 1024
    } else if code == 2 {
        8 * 1024
    } else if code == 3 {
        32 * 1024
    } else if code == 4 {
        128 * 1024
    } else if code == 5 {
        64 * 1024
    } else {
        0
    }
}

/// The cartridge that a ROM image boots into.
pub open spec fn cart_for_rom(rom: Seq<u8>) -> CartModel {
    let mbc = if rom.len() > 0x147 { mbc_of(rom[0x147]) } else { MbcType::RomOnly };
    let ram_size: nat = if rom.len() > 0x149 { ram_size_of(rom[0x149]) } else { 0 };
    let banks: nat = rom.len() / 0x4000;
    CartModel {
        rom,
        ram: Seq::new(if ram_size > 0x2000 { ram_size } else { 0x2000 }, |i: int| 0u8),
        mbc_type: mbc,
        rom_bank: 1,
        ram_bank: 0,
        ram_enabled: false,
        banking_mode: 0,
        rom_bank_count: (if banks > 2 { banks } else { 2 }) as usize,
    }
}

impl CartModel {
    pub open spec fn wf(self) -> bool {
        &&& self.ram.len() >= 0x2000
        &&& self.rom.len() <= isize::MAX
        &&& self.rom_bank_count == (if self.rom.len() / 0x4000 > 2 { self.rom.len() / 0x4000 } else { 2 })
        &&& self.rom_bank <= 0x1FF
        &&& self.ram_bank <= 0x0F
        &&& self.banking_mode <= 1
    }

    /// A ROM byte, or 0xFF past the end of the image.
    pub open spec fn rom_byte(self, offset: int) -> u8 {
        if 0 <= offset < self.rom.len() { self.rom[offset] } else { 0xFF }
    }

    /// Whether MBC1 advanced banking mode is in effect.
    pub open spec fn mbc1_mode1(self) -> bool {
        self.mbc_type == MbcType::Mbc1 && self.banking_mode == 1
    }

    /// The ROM bank mapped at 0x4000..0x7FFF.
    pub open spec fn effective_bank(self) -> int {
        match self.mbc_type {
            MbcType::RomOnly => 1,
            MbcType::Mbc1 => {
                let low: usize = if self.rom_bank & 0x1F == 0 { 1 } else { self.rom_bank & 0x1F };
                let bank: usize = if self.banking_mode == 0 { low | (self.ram_bank << 5) } else { low };
                bank as int % self.rom_bank_count as int
            },
            _ => {
                let bank: int = if self.rom_bank == 0 { 1 } else { self.rom_bank as int };
                bank % self.rom_bank_count as int
            },
        }
    }

    /// The index into external RAM that an address in 0xA000..0xBFFF selects.
    pub open spec fn ram_index(self, addr: u16) -> int {
        let bank: int = if self.mbc1_mode1() { self.ram_bank as int } else { 0 };
        (bank * 0x2000 + (addr - 0xA000)) % self.ram.len() as int
    }

    /// What a read of the cartridge at `addr` returns.
    pub open spec fn read(self, addr: u16) -> u8 {
        if addr <= 0x3FFF {
            if self.mbc1_mode1() {
                let bank = (self.ram_bank * 32) as int % self.rom_bank_count as int;
                self.rom_byte(bank * 0x4000 + addr)
            } else {
                self.rom_byte(addr as int)
            }
        } else if addr <= 0x7FFF {
            self.rom_byte(self.effective_bank() * 0x4000 + (addr - 0x4000))
        } else if 0xA000 <= addr <= 0xBFFF {
            if !self.ram_enabled || self.ram.len() == 0 {
                0xFF
            } else {
                self.ram[self.ram_index(addr)]
            }
        } else {
            0xFF
        }
    }

    /// The controller registers after a write of `val` at `addr`.
    pub open spec fn write_registers(self, addr: u16, val: u8) -> CartModel {
        let enable = (val & 0x0F) == 0x0A;
        match self.mbc_type {
            MbcType::RomOnly => self,
            MbcType::Mbc1 => {
                if addr <= 0x1FFF {
                    CartModel { ram_enabled: enable, ..self }
                } else if addr <= 0x3FFF {
                    CartModel { rom_bank: (val & 0x1F) as usize, ..self }
                } else if addr <= 0x5FFF {
                    CartModel { ram_bank: (val & 0x03) as usize, ..self }
                } else if addr <= 0x7FFF {
                    CartModel { banking_mode: val & 0x01, ..self }
                } else {
                    self
                }
            },
            MbcType::Mbc3 => {
                if addr <= 0x1FFF {
                    CartModel { ram_enabled: enable, ..self }
                } else if addr <= 0x3FFF {
                    CartModel { rom_bank: (val & 0x7F) as usize, ..self }
                } else if addr <= 0x5FFF {
                    CartModel { ram_bank: (val & 0x03) as usize, ..self }
                } else {
                    self
                }
            },
            MbcType::Mbc5 => {
                if addr <= 0x1FFF {
                    CartModel { ram_enabled: enable, ..self }
                } else if addr <= 0x2FFF {
                    CartModel { rom_bank: (self.rom_bank & 0x100) | (val as usize), ..self }
                } else if addr <= 0x3FFF {
                    CartModel { rom_bank: (self.rom_bank & 0xFF) | (((val & 1) as usize) << 8), ..self }
                } else if addr <= 0x5FFF {
                    CartModel { ram_bank: (val & 0x0F) as usize, ..self }
                } else {
                    self
                }
            },
        }
    }

    /// The cartridge after a write of `val` at `addr`: first the controller
    /// registers, then (for 0xA000..0xBFFF, when enabled) external RAM.
    pub open spec fn write(self, addr: u16, val: u8) -> CartModel {
        let c = self.write_registers(addr, val);
        if 0xA000 <= addr <= 0xBFFF && c.ram_enabled && c.ram.len() > 0 {
            CartModel { ram: c.ram.update(c.ram_index(addr), val), ..c }
        } else {
            c
        }
    }
}

impl View for Cartridge {
    type V = CartModel;

    open spec fn view(&self) -> CartModel {
        CartModel {
            rom: self.rom@,
            ram: self.ram@,
            mbc_type: self.mbc_type,
            rom_bank: self.rom_bank,
            ram_bank: self.ram_bank,
            ram_enabled: self.ram_enabled,
            banking_mode: self.banking_mode,
            rom_bank_count: self.rom_bank_count,
        }
    }
}

impl Cartridge {
    pub open spec fn wf(&self) -> bool {
        self@.wf()
    }

    pub fn new(rom: Vec<u8>) -> (c: Self)
        requires
            rom@.len() <= isize::MAX,
        ensures
            c.wf(),
            c@ == cart_for_rom(rom@),
    {
        let mbc_type = if rom.len() > 0x147 {
            match rom[0x147] {
                0x00 => MbcType::RomOnly,
                0x01..=0x03 => MbcType::Mbc1,
                0x0F..=0x13 => MbcType::Mbc3,
                0x19..=0x1E => MbcType::Mbc5,
                _ => MbcType::RomOnly,
            }
        } else {
            MbcType::RomOnly
        };
        let ram_size: usize = if rom.len() > 0x149 {
            match rom[0x149] {
                0x01 => 2 * 1024,
                0x02 => 8 * 1024,
                0x03 => 32 * 1024,
                0x04 => 128 * 1024,
                0x05 => 64 * 1024,
                _ => 0,
            }
        } else {
            0
        };
        let banks = rom.len() / 0x4000;
        let rom_bank_count = if banks > 2 { banks } else { 2 };
        let ram_len = if ram_size > 8 * 1024 { ram_size } else { 8 * 1024 };
        let ram = vec![0u8; ram_len];
        let c = Cartridge {
            rom,
            ram,
            mbc_type,
            rom_bank: 1,
            ram_bank: 0,
            ram_enabled: false,
            banking_mode: 0,
            rom_bank_count,
        };
        assert(c@.ram =~= cart_for_rom(c.rom@).ram);
        c
    }

    pub fn read(&self, addr: u16) -> (r: u8)
        requires
            self.wf(),
        ensures
            r == self@.read(addr),
    {
        if addr <= 0x3FFF {
            if self.mbc_type == MbcType::Mbc1 && self.banking_mode == 1 {
                let rb = self.ram_bank;
                assert(rb << 5 == rb * 32) by (bit_vector)
                    requires rb <= 0x0F;
                let bank = (self.ram_bank << 5) % self.rom_bank_count;
                let offset = bank * 0x4000 + addr as usize;
                if offset < self.rom.len() { self.rom[offset] } else { 0xFF }
            } else {
                if (addr as usize) < self.rom.len() { self.rom[addr as usize] } else { 0xFF }
            }
        } else if addr <= 0x7FFF {
            let bank = self.effective_rom_bank();
            let offset = bank * 0x4000 + (addr as usize - 0x4000);
            if offset < self.rom.len() { self.rom[offset] } else { 0xFF }
        } else if 0xA000 <= addr && addr <= 0xBFFF {
            if !self.ram_enabled || self.ram.len() == 0 {
                0xFF
            } else {
                let bank = if self.mbc_type == MbcType::Mbc1 && self.banking_mode == 1 {
                    self.ram_bank
                } else {
                    0
                };
                let offset = (bank * 0x2000 + (addr as usize - 0xA000)) % self.ram.len();
                self.ram[offset]
            }
        } else {
            0xFF
        }
    }

    fn effective_rom_bank(&self) -> (r: usize)
        requires
            self.wf(),
        ensures
            r == self@.effective_bank(),
            r < self.rom_bank_count,
    {
        match self.mbc_type {
            MbcType::RomOnly => 1,
            MbcType::Mbc1 => {
                let rbk = self.rom_bank;
                assert(rbk & 0x1F <= 0x1F) by (bit_vector);
                let mut bank = self.rom_bank & 0x1F;
                if bank == 0 {
                    bank = 1;
                }
                if self.banking_mode == 0 {
                    let rb = self.ram_bank;
                    let b = bank;
                    assert(b | (rb << 5) <= 0x1FF) by (bit_vector)
                        requires b <= 0x1F, rb <= 0x0F;
                    bank |= self.ram_bank << 5;
                }
                bank % self.rom_bank_count
            },
            MbcType::Mbc3 | MbcType::Mbc5 => {
                let bank = if self.rom_bank == 0 { 1 } else { self.rom_bank };
                bank % self.rom_bank_count
            },
        }
    }

    pub fn write(&mut self, addr: u16, val: u8)
        requires
            old(self).wf(),
        ensures
            final(self).wf(),
            final(self)@ == old(self)@.write(addr, val),
    {
        match self.mbc_type {
            MbcType::RomOnly => {},
            MbcType::Mbc1 => {
                if addr <= 0x1FFF {
                    self.ram_enabled = (val & 0x0F) == 0x0A;
                } else if addr <= 0x3FFF {
                    let bits = val & 0x1F;
                    self.rom_bank = bits as usize;
                } else if addr <= 0x5FFF {
                    self.ram_bank = (val & 0x03) as usize;
                } else if addr <= 0x7FFF {
                    self.banking_mode = val & 0x01;
                }
            },
            MbcType::Mbc3 => {
                if addr <= 0x1FFF {
                    self.ram_enabled = (val & 0x0F) == 0x0A;
                } else if addr <= 0x3FFF {
                    self.rom_bank = (val & 0x7F) as usize;
                } else if addr <= 0x5FFF {
                    self.ram_bank = (val & 0x03) as usize;
                }
            },
            MbcType::Mbc5 => {
                if addr <= 0x1FFF {
                    self.ram_enabled = (val & 0x0F) == 0x0A;
                } else if addr <= 0x2FFF {
                    let rb = self.rom_bank;
                    assert((rb & 0x100) | (val as usize) <= 0x1FF) by (bit_vector);
                    self.rom_bank = (self.rom_bank & 0x100) | val as usize;
                } else if addr <= 0x3FFF {
                    let rb = self.rom_bank;
                    assert((rb & 0xFF) | (((val & 1) as usize) << 8) <= 0x1FF) by (bit_vector);
                    self.rom_bank = (self.rom_bank & 0xFF) | (((val & 1) as usize) << 8);
                } else if addr <= 0x5FFF {
                    self.ram_bank = (val & 0x0F) as usize;
                }
            },
        }
        assert(val & 0x1F <= 0x1F && val & 0x7F <= 0x7F && val & 0x03 <= 3 && val & 0x0F <= 0x0F
            && val & 0x01 <= 1) by (bit_vector);
        if 0xA000 <= addr && addr <= 0xBFFF {
            if self.ram_enabled && self.ram.len() != 0 {
                let bank = if self.mbc_type == MbcType::Mbc1 && self.banking_mode == 1 {
                    self.ram_bank
                } else {
                    0
                };
                let len = self.ram.len();
                let offset = (bank * 0x2000 + (addr as usize - 0xA000)) % len;
                self.ram[offset] = val;
            }
        }
    }
}

/// With external RAM enabled, a write to 0xA000..=0xBFFF is read back.
pub proof fn law_cart_ram_roundtrip(c: CartModel, addr: u16, val: u8)
    requires
        c.wf(),
        c.ram_enabled,
        0xA000 <= addr <= 0xBFFF,
    ensures
        c.write(addr, val).read(addr) == val,
        c.write(addr, val).wf(),
{
}

/// On MBC1 in simple banking mode, selecting ROM bank 0 selects bank 1.
pub proof fn law_mbc1_bank_zero_is_one(c: CartModel, addr: u16)
    requires
        c.wf(),
        c.mbc_type == MbcType::Mbc1,
        c.banking_mode == 0,
        c.ram_bank == 0,
        0x2000 <= addr <= 0x3FFF,
    ensures
        c.write(addr, 0).effective_bank() == 1,
{
    assert((0u8 & 0x1F) == 0 && (0usize & 0x1F) == 0 && (1usize | (0usize << 5usize)) == 1) by (bit_vector);
    let w = c.write(addr, 0);
    assert(w.rom_bank == 0);
    assert(w.ram_bank == 0);
    assert(w.banking_mode == 0);
    assert(w.rom_bank_count >= 2);
    vstd::arithmetic::div_mod::lemma_small_mod(1, w.rom_bank_count as nat);
}

/// A cartridge without a bank controller ignores writes to the ROM area.
pub proof fn law_rom_only_ignores_writes(c: CartModel, addr: u16, val: u8)
    requires
        c.mbc_type == MbcType::RomOnly,
        addr <= 0x7FFF,
    ensures
        c.write(addr, val) == c,
{
}

/// On MBC3 a write to 0x2000..=0x3FFF selects ROM bank v & 0x7F (seven
/// bits; 0 selects 1) for 0x4000..=0x7FFF, wrapped to the banks present.
pub proof fn law_mbc3_selects_seven_bit_bank(c: CartModel, addr: u16, v: u8, k: u16)
    requires
        c.wf(),
        c.mbc_type == MbcType::Mbc3,
        0x2000 <= addr <= 0x3FFF,
        k <= 0x3FFF,
    ensures
        ({
            let b: int = if v & 0x7F == 0 { 1 } else { (v & 0x7F) as int };
            let bank = b % (c.rom_bank_count as int);
            &&& c.write(addr, v).effective_bank() == bank
            &&& c.write(addr, v).read((0x4000 + k) as u16)
                == if bank * 0x4000 + k < c.rom.len() { c.rom[bank * 0x4000 + k] } else { 0xFFu8 }
        }),
{
}

} // verus!
