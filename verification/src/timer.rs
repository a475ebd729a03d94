use vstd::prelude::*;
use vstd::arithmetic::div_mod::{lemma_fundamental_div_mod_converse, lemma_add_mod_noop_right};

verus! {

/// The DIV/TIMA/TMA/TAC timer block.
pub struct Timer {
    /// The 16-bit internal divider; DIV is its upper byte.
    pub div: u16,
    pub tima: u8,
    pub tma: u8,
    pub tac: u8,
    /// T-cycles accumulated towards the next TIMA increment.
    pub tima_acc: u32,
    /// Set when TIMA overflows; cleared by whoever folds it into IF.
    pub irq: bool,
}

/// Number of T-cycles between TIMA increments for the clock select in TAC.
pub open spec fn period_of(tac: u8) -> u32 {
    let sel = tac & 3;
    if sel == 0 { 1024 } else if sel == 1 { 16 } else if sel == 2 { 64 } else { 256 }
}

/// TIMA and the overflow flag after `n` increments, starting from `tima`
/// with reload value `tma`.
pub open spec fn tima_after(tima: u8, tma: u8, irq: bool, n: nat) -> (u8, bool)
    decreases n,
{
    if n == 0 {
        (tima, irq)
    } else {
        let (t, i) = tima_after(tima, tma, irq, (n - 1) as nat);
        if t == 255 { (tma, true) } else { ((t + 1) as u8, i) }
    }
}

impl Timer {
    pub open spec fn wf(&self) -> bool {
        self.tima_acc < 1024
    }

    /// The timer state after `cycles` T-cycles.
    pub open spec fn stepped(self, cycles: u32) -> Timer {
        let div = ((self.div as int + cycles as int) % 0x10000) as u16;
        if self.tac & 4 == 0 {
            Timer { div, ..self }
        } else {
            let total = self.tima_acc as int + cycles as int;
            let p = period_of(self.tac) as int;
            let (tima, irq) = tima_after(self.tima, self.tma, self.irq, (total / p) as nat);
            Timer { div, tima, irq, tima_acc: (total % p) as u32, ..self }
        }
    }

    pub fn new() -> (t: Self)
        ensures
            t.wf(),
            t == (Timer { div: 0xAB00, tima: 0, tma: 0, tac: 0xF8, tima_acc: 0, irq: false }),
    {
        Timer { div: 0xAB00, tima: 0, tma: 0, tac: 0xF8, tima_acc: 0, irq: false }
    }

    /// The DIV register: the upper byte of the internal divider.
    pub fn div(&self) -> (r: u8)
        ensures
            r == self.div / 256,
    {
        let d = self.div;
        assert((d >> 8) as u8 == d / 256) by (bit_vector);
        (d >> 8) as u8
    }

    /// Any write to DIV clears the whole internal divider.
    pub fn reset_div(&mut self)
        ensures
            *final(self) == (Timer { div: 0, ..*old(self) }),
    {
        self.div = 0;
    }

    fn period(&self) -> (r: u32)
        ensures
            r == period_of(self.tac),
    {
        match self.tac & 0x03 {
            0 => 1024,
            1 => 16,
            2 => 64,
            _ => 256,
        }
    }

    pub fn step(&mut self, cycles: u32)
        requires
            old(self).wf(),
            old(self).tac & 4 != 0 ==> old(self).tima_acc + cycles <= u32::MAX,
        ensures
            final(self).wf(),
            *final(self) == old(self).stepped(cycles),
    {
        let ghost start = *old(self);
        proof {
            assert(cycles as u16 == cycles % 0x10000) by (bit_vector);
            lemma_add_mod_noop_right(start.div as int, cycles as int, 0x10000);
        }
        self.div = self.div.wrapping_add(cycles as u16);
        if self.tac & 0x04 == 0 {
            return;
        }
        self.tima_acc += cycles;
        let period = self.period();
        let ghost total = self.tima_acc as int;
        let ghost mut k: nat = 0;
        while self.tima_acc >= period
            invariant
                period == period_of(self.tac),
                period > 0,
                self.tac == start.tac,
                self.tma == start.tma,
                self.div == start.stepped(cycles).div,
                total == self.tima_acc + k * period,
                (self.tima, self.irq) == tima_after(start.tima, start.tma, start.irq, k),
            decreases self.tima_acc,
        {
            self.tima_acc -= period;
            if self.tima == 255 {
                self.tima = self.tma;
                self.irq = true;
            } else {
                self.tima = self.tima + 1;
            }
            proof {
                assert((k + 1) * period == k * period + period) by (nonlinear_arith);
                k = k + 1;
            }
        }
        proof {
            lemma_fundamental_div_mod_converse(total, period as int, k as int, self.tima_acc as int);
        }
    }
}

/// With the timer disabled (TAC bit 2 clear), only DIV moves: TIMA, the
/// accumulated cycles and the interrupt request are unchanged.
pub proof fn law_timer_disabled(t: Timer, cycles: u32)
    requires
        t.tac & 4 == 0,
    ensures
        t.stepped(cycles).tima == t.tima,
        t.stepped(cycles).tima_acc == t.tima_acc,
        t.stepped(cycles).irq == t.irq,
{
}

/// Below overflow, TIMA simply counts the increments.
pub proof fn law_tima_counts(tima: u8, tma: u8, irq: bool, n: nat)
    requires
        tima + n <= 255,
    ensures
        tima_after(tima, tma, irq, n) == ((tima + n) as u8, irq),
    decreases n,
{
    if n > 0 {
        law_tima_counts(tima, tma, irq, (n - 1) as nat);
    }
}

/// The increment that overflows TIMA reloads it from TMA and requests the
/// timer interrupt.
pub proof fn law_tima_overflow(tima: u8, tma: u8, irq: bool)
    ensures
        tima_after(tima, tma, irq, (256 - tima) as nat) == (tma, true),
{
    law_tima_counts(tima, tma, irq, (255 - tima) as nat);
}

/// A timer interrupt request stays raised until it is acknowledged.
pub proof fn law_timer_request_stays(t: Timer, cycles: u32)
    requires
        t.irq,
    ensures
        t.stepped(cycles).irq,
{
    if t.tac & 4 != 0 {
        let total = t.tima_acc as int + cycles as int;
        let p = period_of(t.tac) as int;
        lemma_tima_after_keeps_irq(t.tima, t.tma, (total / p) as nat);
    }
}

proof fn lemma_tima_after_keeps_irq(tima: u8, tma: u8, n: nat)
    ensures
        tima_after(tima, tma, true, n).1,
    decreases n,
{
    if n > 0 {
        lemma_tima_after_keeps_irq(tima, tma, (n - 1) as nat);
    }
}

/// While the timer runs, TIMA counts once per 1024, 16, 64 or 256 T-cycles
/// for TAC & 3 = 0, 1, 2, 3 (4096, 262144, 65536, 16384 Hz); the cycles left
/// over stay in the accumulator.
pub proof fn law_timer_rate(t: Timer, cycles: u32)
    requires
        t.tac & 4 != 0,
        ({
            let sel = t.tac & 3;
            let p: int = if sel == 0 { 1024 } else if sel == 1 { 16 } else if sel == 2 { 64 } else { 256 };
            t.tima + (t.tima_acc + cycles) / p <= 255
        }),
    ensures
        ({
            let sel = t.tac & 3;
            let p: int = if sel == 0 { 1024 } else if sel == 1 { 16 } else if sel == 2 { 64 } else { 256 };
            &&& t.stepped(cycles).tima == t.tima + (t.tima_acc + cycles) / p
            &&& t.stepped(cycles).tima_acc == (t.tima_acc + cycles) % p
            &&& t.stepped(cycles).irq == t.irq
        }),
{
    let total = t.tima_acc as int + cycles as int;
    let p = period_of(t.tac) as int;
    law_tima_counts(t.tima, t.tma, t.irq, (total / p) as nat);
}

} // verus!
