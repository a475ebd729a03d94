use vstd::prelude::*;

verus! {

/// The eight Game Boy buttons.
#[derive(Clone, Copy, PartialEq, Eq, Structural, Debug)]
pub enum Button {
    Right,
    Left,
    Up,
    Down,
    A,
    B,
    Select,
    Start,
}

/// The P1/JOYP register and the set of buttons currently held.
pub struct Joypad {
    /// The two group-select bits (bit 4: directions, bit 5: actions; 0 = selected).
    pub select: u8,
    /// Held direction keys, one bit each (Right, Left, Up, Down), 1 = held.
    pub direction: u8,
    /// Held action keys, one bit each (A, B, Select, Start), 1 = held.
    pub action: u8,
    /// Set when a button goes from released to held.
    pub irq: bool,
}

/// Whether the button belongs to the action group (else the direction group).
pub open spec fn is_action(b: Button) -> bool {
    match b {
        Button::A | Button::B | Button::Select | Button::Start => true,
        _ => false,
    }
}

/// The bit that the button occupies within its group.
pub open spec fn button_bit(b: Button) -> u8 {
    match b {
        Button::Right | Button::A => 0x01,
        Button::Left | Button::B => 0x02,
        Button::Up | Button::Select => 0x04,
        Button::Down | Button::Start => 0x08,
    }
}

impl Joypad {
    /// Whether the button is currently held.
    pub open spec fn held(self, b: Button) -> bool {
        if is_action(b) {
            self.action & button_bit(b) != 0
        } else {
            self.direction & button_bit(b) != 0
        }
    }

    /// The value a read of P1 returns: the select bits, the two unused bits
    /// set, and in the low nibble a 0 for each held key of a selected group.
    pub open spec fn p1(self) -> u8 {
        let act: u8 = if self.select & 0x20 == 0 { !self.action } else { 0xFF };
        let dir: u8 = if self.select & 0x10 == 0 { !self.direction } else { 0xFF };
        0xC0 | (self.select & 0x30) | (0x0F & act & dir)
    }

    /// The state after the button is pressed (`pressed`) or released.
    pub open spec fn with_button(self, b: Button, pressed: bool) -> Joypad {
        let bit = button_bit(b);
        let was = self.held(b);
        let irq = self.irq || (pressed && !was);
        if is_action(b) {
            let action = if pressed { self.action | bit } else { self.action & !bit };
            Joypad { action, irq, ..self }
        } else {
            let direction = if pressed { self.direction | bit } else { self.direction & !bit };
            Joypad { direction, irq, ..self }
        }
    }

    pub fn new() -> (j: Self)
        ensures
            j == (Joypad { select: 0x30, direction: 0, action: 0, irq: false }),
    {
        Joypad { select: 0x30, direction: 0, action: 0, irq: false }
    }

    pub fn read(&self) -> (r: u8)
        ensures
            r == self.p1(),
    {
        let mut bits: u8 = 0x0F;
        if self.select & 0x20 == 0 {
            bits &= !self.action;
        }
        if self.select & 0x10 == 0 {
            bits &= !self.direction;
        }
        let r = 0xC0 | (self.select & 0x30) | bits;
        proof {
            let (s, a, d) = (self.select, self.action, self.direction);
            assert(0x0Fu8 & !a & !d == 0x0F & (!a) & (!d) && 0x0Fu8 & !a & 0xFF == 0x0Fu8 & !a
                && 0x0Fu8 & 0xFFu8 & !d == 0x0Fu8 & !d && 0x0Fu8 & 0xFFu8 & 0xFFu8 == 0x0Fu8) by (bit_vector);
        }
        r
    }

    /// A write to P1 changes only the two group-select bits.
    pub fn write(&mut self, val: u8)
        ensures
            *final(self) == (Joypad { select: val & 0x30, ..*old(self) }),
    {
        self.select = val & 0x30;
    }

    pub fn set(&mut self, button: Button, pressed: bool)
        ensures
            *final(self) == old(self).with_button(button, pressed),
    {
        let (group, bit): (u8, u8) = match button {
            Button::Right => (0, 0x01),
            Button::Left => (0, 0x02),
            Button::Up => (0, 0x04),
            Button::Down => (0, 0x08),
            Button::A => (1, 0x01),
            Button::B => (1, 0x02),
            Button::Select => (1, 0x04),
            Button::Start => (1, 0x08),
        };
        if group == 0 {
            let was = self.direction & bit != 0;
            if pressed {
                self.direction = self.direction | bit;
                if !was {
                    self.irq = true;
                }
            } else {
                self.direction = self.direction & !bit;
            }
        } else {
            let was = self.action & bit != 0;
            if pressed {
                self.action = self.action | bit;
                if !was {
                    self.irq = true;
                }
            } else {
                self.action = self.action & !bit;
            }
        }
    }
}

/// With only the button's own group selected, its bit in P1's low nibble is
/// 0 exactly while the button is held.
pub proof fn law_p1_reflects_button(j: Joypad, b: Button)
    requires
        is_action(b) ==> j.select & 0x20 == 0 && j.select & 0x10 != 0,
        !is_action(b) ==> j.select & 0x10 == 0 && j.select & 0x20 != 0,
    ensures
        (j.p1() & button_bit(b) == 0) == j.held(b),
{
    let (s, a, d, bit) = (j.select, j.action, j.direction, button_bit(b));
    assert(bit == 1 || bit == 2 || bit == 4 || bit == 8);
    assert((bit == 1 || bit == 2 || bit == 4 || bit == 8) ==> ((s & 0x20 == 0 && s & 0x10 != 0
        ==> (((0xC0 | (s & 0x30) | (0x0Fu8 & !a & 0xFFu8)) & bit == 0) == (a & bit != 0)))
        && (s & 0x10 == 0 && s & 0x20 != 0
        ==> (((0xC0 | (s & 0x30) | (0x0Fu8 & 0xFFu8 & !d)) & bit == 0) == (d & bit != 0)))))
        by (bit_vector);
}

/// Pressing and then releasing a button that was not held restores the
/// joypad exactly, except that the press has requested the joypad interrupt.
pub proof fn law_press_release(j: Joypad, b: Button)
    requires
        !j.held(b),
    ensures
        j.with_button(b, true).with_button(b, false) == (Joypad { irq: true, ..j }),
        j.with_button(b, true).held(b),
{
    let bit = button_bit(b);
    let (a, d) = (j.action, j.direction);
    assert((bit == 1 || bit == 2 || bit == 4 || bit == 8) ==> (a & bit == 0 ==> (a | bit) & !bit == a)
        && (d & bit == 0 ==> (d | bit) & !bit == d) && (a | bit) & bit != 0 && (d | bit) & bit != 0)
        by (bit_vector);
}

} // verus!
