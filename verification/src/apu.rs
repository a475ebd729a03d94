use vstd::prelude::*;
use vstd::arithmetic::div_mod::lemma_add_mod_noop;

verus! {

/// T-cycles between frame-sequencer steps (512 Hz).
pub const FRAME_SEQ_PERIOD: i32 = 8192;
/// T-cycles between output samples: 4194304 Hz / 44100 Hz, rounded down.
pub const SAMPLE_PERIOD: i32 = 95;

/// The 8-step waveform of a duty setting, first step in the top bit.
pub open spec fn duty_wave(duty: u8) -> u8 {
    if duty == 0 {
        0b0000_0001
    } else if duty == 1 {
        0b1000_0001
    } else if duty == 2 {
        0b1000_0111
    } else {
        0b0111_1110
    }
}

/// Whether step `pos` of the duty waveform is high (1) or low (0).
pub open spec fn duty_bit(duty: u8, pos: u8) -> u8 {
    (duty_wave(duty) >> ((7 - pos) as u8)) & 1
}

/// The noise channel's base divisor for a divisor code.
pub open spec fn noise_divisor(code: u8) -> i32 {
    if code == 0 { 8 } else { (16 * code) as i32 }
}

/// How many reloads by `period` a countdown timer that reached `timer`
/// needs before it is positive again.
pub open spec fn reloads(timer: int, period: int) -> nat
    decreases (if timer > 0 || period < 1 { 0 } else { 1 - timer }),
{
    if timer > 0 || period < 1 { 0 } else { 1 + reloads(timer + period, period) }
}

/// The linear-feedback shift register after `n` clocks.
pub open spec fn lfsr_after(lfsr: u16, width_mode: bool, n: nat) -> u16
    decreases n,
{
    if n == 0 {
        lfsr
    } else {
        let l = lfsr_after(lfsr, width_mode, (n - 1) as nat);
        let bit = (l & 1) ^ ((l >> 1) & 1);
        let l2 = (l >> 1) | (bit << 14);
        if width_mode { (l2 & !0x40u16) | (bit << 6) } else { l2 }
    }
}

proof fn lemma_reloads_step(timer: int, period: int)
    requires
        timer <= 0,
        period >= 1,
    ensures
        reloads(timer, period) == 1 + reloads(timer + period, period),
        timer + period * reloads(timer, period) > 0,
        timer + period * reloads(timer, period) <= period,
    decreases 1 - timer,
{
    if timer + period <= 0 {
        lemma_reloads_step(timer + period, period);
        assert(period * reloads(timer, period) == period + period * reloads(timer + period, period))
            by (nonlinear_arith)
            requires reloads(timer, period) == 1 + reloads(timer + period, period);
    } else {
        assert(reloads(timer + period, period) == 0);
    }
}

/// A pulse channel (channel 1 has a frequency sweep, channel 2 does not).
pub struct Square {
    pub enabled: bool,
    pub dac_on: bool,
    pub sweep_period: u8,
    pub sweep_negate: bool,
    pub sweep_shift: u8,
    pub sweep_timer: u8,
    pub shadow_freq: u16,
    pub sweep_enabled: bool,
    pub duty: u8,
    pub duty_pos: u8,
    pub length: u16,
    pub length_enabled: bool,
    pub freq: u16,
    pub timer: i32,
    pub vol_start: u8,
    pub vol_current: u8,
    pub env_add: bool,
    pub env_period: u8,
    pub env_timer: u8,
    pub has_sweep: bool,
}

impl Square {
    pub open spec fn wf(self) -> bool {
        &&& self.duty <= 3
        &&& self.duty_pos < 8
        &&& self.freq <= 0x7FF
        &&& 0 <= self.timer <= 8192
        &&& self.vol_current <= 15
        &&& self.vol_start <= 15
        &&& self.length <= 64
        &&& self.sweep_shift <= 7
        &&& self.sweep_period <= 7
        &&& self.env_period <= 7
    }

    /// The timer reload value: (2048 - frequency) * 4, at least 1.
    pub open spec fn period(self) -> int {
        let p = (2048 - self.freq) * 4;
        if p > 1 { p } else { 1 }
    }

    pub open spec fn sweep_reload(self) -> u8 {
        if self.sweep_period == 0 { 8 } else { self.sweep_period }
    }

    /// The next swept frequency (and the channel, disabled if it overflows).
    pub open spec fn sweep_next(self) -> (Square, u16) {
        let delta = self.shadow_freq >> self.sweep_shift;
        let nf: u16 = if self.sweep_negate {
            ((self.shadow_freq - delta) % 0x10000) as u16
        } else {
            ((self.shadow_freq + delta) % 0x10000) as u16
        };
        (if nf > 2047 { Square { enabled: false, ..self } } else { self }, nf)
    }

    pub open spec fn triggered(self) -> Square {
        let s = Square {
            enabled: self.dac_on,
            length: if self.length == 0 { 64 } else { self.length },
            timer: self.period() as i32,
            vol_current: self.vol_start,
            env_timer: self.env_period,
            shadow_freq: self.freq,
            sweep_timer: self.sweep_reload(),
            sweep_enabled: self.sweep_period != 0 || self.sweep_shift != 0,
            ..self
        };
        if self.has_sweep && self.sweep_shift != 0 { s.sweep_next().0 } else { s }
    }

    pub open spec fn sweep_stepped(self) -> Square {
        if !self.has_sweep {
            self
        } else {
            let t: u8 = if self.sweep_timer > 0 { (self.sweep_timer - 1) as u8 } else { 0 };
            if t != 0 {
                Square { sweep_timer: t, ..self }
            } else {
                let s = Square { sweep_timer: self.sweep_reload(), ..self };
                if s.sweep_enabled && s.sweep_period > 0 {
                    let (s1, nf) = s.sweep_next();
                    if nf <= 2047 && s.sweep_shift != 0 {
                        Square { freq: nf, shadow_freq: nf, ..s1 }.sweep_next().0
                    } else {
                        s1
                    }
                } else {
                    s
                }
            }
        }
    }

    pub open spec fn length_stepped(self) -> Square {
        if self.length_enabled && self.length > 0 {
            let l = (self.length - 1) as u16;
            Square { length: l, enabled: if l == 0 { false } else { self.enabled }, ..self }
        } else {
            self
        }
    }

    pub open spec fn envelope_stepped(self) -> Square {
        if self.env_period == 0 {
            self
        } else {
            let t: u8 = if self.env_timer > 0 { (self.env_timer - 1) as u8 } else { 0 };
            if t != 0 {
                Square { env_timer: t, ..self }
            } else {
                let v: u8 = if self.env_add && self.vol_current < 15 {
                    (self.vol_current + 1) as u8
                } else if !self.env_add && self.vol_current > 0 {
                    (self.vol_current - 1) as u8
                } else {
                    self.vol_current
                };
                Square { env_timer: self.env_period, vol_current: v, ..self }
            }
        }
    }

    pub open spec fn timer_stepped(self, cycles: int) -> Square {
        let t = self.timer - cycles;
        let n = reloads(t, self.period());
        Square {
            timer: (t + n * self.period()) as i32,
            duty_pos: ((self.duty_pos + n) % 8) as u8,
            ..self
        }
    }

    /// The channel's current output level, 0..=15.
    pub open spec fn level(self) -> u8 {
        if !self.enabled || !self.dac_on {
            0
        } else if duty_bit(self.duty, self.duty_pos) == 1 {
            self.vol_current
        } else {
            0
        }
    }

    pub open spec fn new_spec(has_sweep: bool) -> Square {
        Square {
            enabled: false, dac_on: false, sweep_period: 0, sweep_negate: false, sweep_shift: 0,
            sweep_timer: 0, shadow_freq: 0, sweep_enabled: false, duty: 2, duty_pos: 0,
            length: 0, length_enabled: false, freq: 0, timer: 0, vol_start: 0, vol_current: 0,
            env_add: false, env_period: 0, env_timer: 0, has_sweep,
        }
    }

    fn new(has_sweep: bool) -> (s: Self)
        ensures
            s.wf(),
            s == Self::new_spec(has_sweep),
            s == (Square {
                enabled: false, dac_on: false, sweep_period: 0, sweep_negate: false, sweep_shift: 0,
                sweep_timer: 0, shadow_freq: 0, sweep_enabled: false, duty: 2, duty_pos: 0,
                length: 0, length_enabled: false, freq: 0, timer: 0, vol_start: 0, vol_current: 0,
                env_add: false, env_period: 0, env_timer: 0, has_sweep,
            }),
    {
        Square {
            enabled: false,
            dac_on: false,
            sweep_period: 0,
            sweep_negate: false,
            sweep_shift: 0,
            sweep_timer: 0,
            shadow_freq: 0,
            sweep_enabled: false,
            duty: 2,
            duty_pos: 0,
            length: 0,
            length_enabled: false,
            freq: 0,
            timer: 0,
            vol_start: 0,
            vol_current: 0,
            env_add: false,
            env_period: 0,
            env_timer: 0,
            has_sweep,
        }
    }

    fn reload_value(&self) -> (r: i32)
        requires
            self.freq <= 0x7FF,
        ensures
            r == self.period(),
            1 <= r <= 8192,
    {
        let p = (2048 - self.freq as i32) * 4;
        if p > 1 { p } else { 1 }
    }

    fn trigger(&mut self)
        requires
            old(self).wf(),
        ensures
            final(self).wf(),
            *final(self) == old(self).triggered(),
    {
        self.enabled = self.dac_on;
        if self.length == 0 {
            self.length = 64;
        }
        self.timer = self.reload_value();
        self.vol_current = self.vol_start;
        self.env_timer = self.env_period;
        self.shadow_freq = self.freq;
        self.sweep_timer = if self.sweep_period == 0 { 8 } else { self.sweep_period };
        self.sweep_enabled = self.sweep_period != 0 || self.sweep_shift != 0;
        if self.has_sweep && self.sweep_shift != 0 {
            self.sweep_calc();
        }
    }

    fn sweep_calc(&mut self) -> (r: u16)
        requires
            old(self).sweep_shift <= 7,
        ensures
            (*final(self), r) == old(self).sweep_next(),
    {
        let sf = self.shadow_freq;
        let sh = self.sweep_shift;
        let delta = sf >> sh;
        assert(delta <= sf) by (bit_vector)
            requires delta == sf >> sh;
        let new_freq = if self.sweep_negate {
            self.shadow_freq.wrapping_sub(delta)
        } else {
            self.shadow_freq.wrapping_add(delta)
        };
        if new_freq > 2047 {
            self.enabled = false;
        }
        new_freq
    }

    fn step_sweep(&mut self)
        requires
            old(self).wf(),
        ensures
            final(self).wf(),
            *final(self) == old(self).sweep_stepped(),
    {
        if !self.has_sweep {
            return;
        }
        if self.sweep_timer > 0 {
            self.sweep_timer -= 1;
        }
        if self.sweep_timer == 0 {
            self.sweep_timer = if self.sweep_period == 0 { 8 } else { self.sweep_period };
            if self.sweep_enabled && self.sweep_period > 0 {
                let new_freq = self.sweep_calc();
                if new_freq <= 2047 && self.sweep_shift != 0 {
                    self.freq = new_freq;
                    self.shadow_freq = new_freq;
                    self.sweep_calc();
                }
            }
        }
    }

    fn step_length(&mut self)
        requires
            old(self).wf(),
        ensures
            final(self).wf(),
            *final(self) == old(self).length_stepped(),
    {
        if self.length_enabled && self.length > 0 {
            self.length -= 1;
            if self.length == 0 {
                self.enabled = false;
            }
        }
    }

    fn step_envelope(&mut self)
        requires
            old(self).wf(),
        ensures
            final(self).wf(),
            *final(self) == old(self).envelope_stepped(),
    {
        if self.env_period == 0 {
            return;
        }
        if self.env_timer > 0 {
            self.env_timer -= 1;
        }
        if self.env_timer == 0 {
            self.env_timer = self.env_period;
            if self.env_add && self.vol_current < 15 {
                self.vol_current += 1;
            } else if !self.env_add && self.vol_current > 0 {
                self.vol_current -= 1;
            }
        }
    }

    fn step(&mut self, cycles: i32)
        requires
            old(self).wf(),
            0 <= cycles,
        ensures
            final(self).wf(),
            *final(self) == old(self).timer_stepped(cycles as int),
    {
        let ghost t0 = self.timer - cycles;
        let ghost p = self.period();
        let ghost pos0 = self.duty_pos;
        self.timer -= cycles;
        let period = self.reload_value();
        let ghost mut k: nat = 0;
        while self.timer <= 0
            invariant
                self.wf() || self.timer <= 0,
                self.duty <= 3 && self.freq <= 0x7FF && self.vol_current <= 15 && self.vol_start <= 15
                    && self.length <= 64 && self.sweep_shift <= 7 && self.sweep_period <= 7
                    && self.env_period <= 7,
                self.duty_pos < 8,
                period == p,
                p == self.period(),
                1 <= p <= 8192,
                self.timer == t0 + k * p,
                self.timer <= 8192,
                t0 <= 0 ==> reloads(t0, p) == k + reloads(self.timer as int, p),
                t0 > 0 ==> k == 0,
                self.duty_pos == (pos0 + k) % 8,
                *old(self) == (Square { timer: old(self).timer, duty_pos: old(self).duty_pos, ..*self }),
            decreases (if self.timer <= 0 { 1 - self.timer } else { 0 }),
        {
            proof {
                lemma_reloads_step(self.timer as int, p);
                lemma_add_mod_noop(pos0 + k, 1, 8);
                assert((k + 1) * p == k * p + p) by (nonlinear_arith);
            }
            self.timer += period;
            self.duty_pos = (self.duty_pos + 1) % 8;
            proof {
                k = k + 1;
            }
        }
    }

    fn output(&self) -> (r: u8)
        requires
            self.wf(),
        ensures
            r == self.level(),
    {
        if !self.enabled || !self.dac_on {
            return 0;
        }
        let wave: u8 = if self.duty == 0 {
            0b0000_0001
        } else if self.duty == 1 {
            0b1000_0001
        } else if self.duty == 2 {
            0b1000_0111
        } else {
            0b0111_1110
        };
        let bit = (wave >> (7 - self.duty_pos)) & 1;
        if bit == 1 { self.vol_current } else { 0 }
    }
}

/// The wave channel: plays 32 4-bit samples from wave RAM.
pub struct Wave {
    pub enabled: bool,
    pub dac_on: bool,
    pub length: u16,
    pub length_enabled: bool,
    pub freq: u16,
    pub timer: i32,
    pub volume_shift: u8,
    pub ram: [u8; 16],
    pub pos: u8,
}

/// The abstract state of the wave channel.
pub ghost struct WaveModel {
    pub enabled: bool,
    pub dac_on: bool,
    pub length: u16,
    pub length_enabled: bool,
    pub freq: u16,
    pub timer: i32,
    pub volume_shift: u8,
    pub ram: Seq<u8>,
    pub pos: u8,
}

impl View for Wave {
    type V = WaveModel;

    open spec fn view(&self) -> WaveModel {
        WaveModel {
            enabled: self.enabled,
            dac_on: self.dac_on,
            length: self.length,
            length_enabled: self.length_enabled,
            freq: self.freq,
            timer: self.timer,
            volume_shift: self.volume_shift,
            ram: self.ram@,
            pos: self.pos,
        }
    }
}

impl WaveModel {
    pub open spec fn wf(self) -> bool {
        &&& self.ram.len() == 16
        &&& self.pos < 32
        &&& self.freq <= 0x7FF
        &&& 0 <= self.timer <= 4096
        &&& self.volume_shift <= 3
        &&& self.length <= 256
    }

    /// The timer reload value: (2048 - frequency) * 2, at least 1.
    pub open spec fn period(self) -> int {
        let p = (2048 - self.freq) * 2;
        if p > 1 { p } else { 1 }
    }

    pub open spec fn triggered(self) -> WaveModel {
        WaveModel {
            enabled: self.dac_on,
            length: if self.length == 0 { 256 } else { self.length },
            timer: self.period() as i32,
            pos: 0,
            ..self
        }
    }

    pub open spec fn length_stepped(self) -> WaveModel {
        if self.length_enabled && self.length > 0 {
            let l = (self.length - 1) as u16;
            WaveModel { length: l, enabled: if l == 0 { false } else { self.enabled }, ..self }
        } else {
            self
        }
    }

    pub open spec fn timer_stepped(self, cycles: int) -> WaveModel {
        let t = self.timer - cycles;
        let n = reloads(t, self.period());
        WaveModel { timer: (t + n * self.period()) as i32, pos: ((self.pos + n) % 32) as u8, ..self }
    }

    /// The current 4-bit sample after the volume shift.
    pub open spec fn level(self) -> u8 {
        if !self.enabled || !self.dac_on || self.volume_shift == 0 {
            0
        } else {
            let byte = self.ram[(self.pos / 2) as int];
            let sample: u8 = if self.pos % 2 == 0 { byte >> 4 } else { byte & 0x0F };
            sample >> ((self.volume_shift - 1) as u8)
        }
    }
}

impl Wave {
    fn new() -> (w: Self)
        ensures
            w@.wf(),
            w@ == (WaveModel {
                enabled: false, dac_on: false, length: 0, length_enabled: false, freq: 0, timer: 0,
                volume_shift: 0, ram: Seq::new(16, |i: int| 0u8), pos: 0,
            }),
    {
        let w = Wave {
            enabled: false,
            dac_on: false,
            length: 0,
            length_enabled: false,
            freq: 0,
            timer: 0,
            volume_shift: 0,
            ram: [0; 16],
            pos: 0,
        };
        assert(w@.ram =~= Seq::new(16, |i: int| 0u8));
        w
    }

    fn trigger(&mut self)
        requires
            old(self)@.wf(),
        ensures
            final(self)@.wf(),
            final(self)@ == old(self)@.triggered(),
    {
        self.enabled = self.dac_on;
        if self.length == 0 {
            self.length = 256;
        }
        let p = (2048 - self.freq as i32) * 2;
        self.timer = if p > 1 { p } else { 1 };
        self.pos = 0;
    }

    fn step_length(&mut self)
        requires
            old(self)@.wf(),
        ensures
            final(self)@.wf(),
            final(self)@ == old(self)@.length_stepped(),
    {
        if self.length_enabled && self.length > 0 {
            self.length -= 1;
            if self.length == 0 {
                self.enabled = false;
            }
        }
    }

    fn step(&mut self, cycles: i32)
        requires
            old(self)@.wf(),
            0 <= cycles,
        ensures
            final(self)@.wf(),
            final(self)@ == old(self)@.timer_stepped(cycles as int),
    {
        let ghost t0 = self.timer - cycles;
        let ghost p = self@.period();
        let ghost pos0 = self.pos;
        self.timer -= cycles;
        let p0 = (2048 - self.freq as i32) * 2;
        let period = if p0 > 1 { p0 } else { 1 };
        let ghost mut k: nat = 0;
        while self.timer <= 0
            invariant
                self.freq <= 0x7FF && self.volume_shift <= 3 && self.length <= 256,
                self.pos < 32,
                period == p,
                p == self@.period(),
                1 <= p <= 4096,
                self.timer == t0 + k * p,
                self.timer <= 4096,
                t0 <= 0 ==> reloads(t0, p) == k + reloads(self.timer as int, p),
                t0 > 0 ==> k == 0,
                self.pos == (pos0 + k) % 32,
                old(self)@ == (WaveModel { timer: old(self)@.timer, pos: old(self)@.pos, ..self@ }),
            decreases (if self.timer <= 0 { 1 - self.timer } else { 0 }),
        {
            proof {
                lemma_reloads_step(self.timer as int, p);
                lemma_add_mod_noop(pos0 + k, 1, 32);
                assert((k + 1) * p == k * p + p) by (nonlinear_arith);
            }
            self.timer += period;
            self.pos = (self.pos + 1) % 32;
            proof {
                k = k + 1;
            }
        }
    }

    fn output(&self) -> (r: u8)
        requires
            self@.wf(),
        ensures
            r == self@.level(),
    {
        if !self.enabled || !self.dac_on || self.volume_shift == 0 {
            return 0;
        }
        let byte = self.ram[(self.pos / 2) as usize];
        let sample = if self.pos % 2 == 0 { byte >> 4 } else { byte & 0x0F };
        sample >> (self.volume_shift - 1)
    }
}

/// The noise channel.
pub struct Noise {
    pub enabled: bool,
    pub dac_on: bool,
    pub length: u16,
    pub length_enabled: bool,
    pub vol_start: u8,
    pub vol_current: u8,
    pub env_add: bool,
    pub env_period: u8,
    pub env_timer: u8,
    pub shift: u8,
    pub width_mode: bool,
    pub divisor_code: u8,
    pub lfsr: u16,
    pub timer: i32,
}

impl Noise {
    pub open spec fn wf(self) -> bool {
        &&& self.divisor_code <= 7
        &&& self.shift <= 15
        &&& 0 <= self.timer <= 112 * 32768
        &&& self.vol_current <= 15
        &&& self.vol_start <= 15
        &&& self.env_period <= 7
        &&& self.length <= 64
    }

    /// The timer reload value: the divisor shifted left by the clock shift.
    pub open spec fn period(self) -> int {
        (noise_divisor(self.divisor_code) << self.shift) as int
    }

    pub open spec fn triggered(self) -> Noise {
        Noise {
            enabled: self.dac_on,
            length: if self.length == 0 { 64 } else { self.length },
            vol_current: self.vol_start,
            env_timer: self.env_period,
            lfsr: 0x7FFF,
            timer: self.period() as i32,
            ..self
        }
    }

    pub open spec fn length_stepped(self) -> Noise {
        if self.length_enabled && self.length > 0 {
            let l = (self.length - 1) as u16;
            Noise { length: l, enabled: if l == 0 { false } else { self.enabled }, ..self }
        } else {
            self
        }
    }

    pub open spec fn envelope_stepped(self) -> Noise {
        if self.env_period == 0 {
            self
        } else {
            let t: u8 = if self.env_timer > 0 { (self.env_timer - 1) as u8 } else { 0 };
            if t != 0 {
                Noise { env_timer: t, ..self }
            } else {
                let v: u8 = if self.env_add && self.vol_current < 15 {
                    (self.vol_current + 1) as u8
                } else if !self.env_add && self.vol_current > 0 {
                    (self.vol_current - 1) as u8
                } else {
                    self.vol_current
                };
                Noise { env_timer: self.env_period, vol_current: v, ..self }
            }
        }
    }

    pub open spec fn timer_stepped(self, cycles: int) -> Noise {
        let t = self.timer - cycles;
        let n = reloads(t, self.period());
        Noise {
            timer: (t + n * self.period()) as i32,
            lfsr: lfsr_after(self.lfsr, self.width_mode, n),
            ..self
        }
    }

    pub open spec fn level(self) -> u8 {
        if !self.enabled || !self.dac_on {
            0
        } else if self.lfsr & 1 == 0 {
            self.vol_current
        } else {
            0
        }
    }

    fn new() -> (n: Self)
        ensures
            n.wf(),
            n == (Noise {
                enabled: false, dac_on: false, length: 0, length_enabled: false, vol_start: 0,
                vol_current: 0, env_add: false, env_period: 0, env_timer: 0, shift: 0,
                width_mode: false, divisor_code: 0, lfsr: 0x7FFF, timer: 0,
            }),
    {
        Noise {
            enabled: false,
            dac_on: false,
            length: 0,
            length_enabled: false,
            vol_start: 0,
            vol_current: 0,
            env_add: false,
            env_period: 0,
            env_timer: 0,
            shift: 0,
            width_mode: false,
            divisor_code: 0,
            lfsr: 0x7FFF,
            timer: 0,
        }
    }

    fn reload_value(&self) -> (r: i32)
        requires
            self.wf(),
        ensures
            r == self.period(),
            8 <= r <= 112 * 32768,
    {
        let d: i32 = if self.divisor_code == 0 { 8 } else { 16 * self.divisor_code as i32 };
        let sh = self.shift;
        assert(8 <= d << sh <= 112 * 32768) by (bit_vector)
            requires 8 <= d <= 112, sh <= 15;
        d << sh
    }

    fn trigger(&mut self)
        requires
            old(self).wf(),
        ensures
            final(self).wf(),
            *final(self) == old(self).triggered(),
    {
        self.enabled = self.dac_on;
        if self.length == 0 {
            self.length = 64;
        }
        self.vol_current = self.vol_start;
        self.env_timer = self.env_period;
        self.lfsr = 0x7FFF;
        self.timer = self.reload_value();
    }

    fn step_length(&mut self)
        requires
            old(self).wf(),
        ensures
            final(self).wf(),
            *final(self) == old(self).length_stepped(),
    {
        if self.length_enabled && self.length > 0 {
            self.length -= 1;
            if self.length == 0 {
                self.enabled = false;
            }
        }
    }

    fn step_envelope(&mut self)
        requires
            old(self).wf(),
        ensures
            final(self).wf(),
            *final(self) == old(self).envelope_stepped(),
    {
        if self.env_period == 0 {
            return;
        }
        if self.env_timer > 0 {
            self.env_timer -= 1;
        }
        if self.env_timer == 0 {
            self.env_timer = self.env_period;
            if self.env_add && self.vol_current < 15 {
                self.vol_current += 1;
            } else if !self.env_add && self.vol_current > 0 {
                self.vol_current -= 1;
            }
        }
    }

    fn step(&mut self, cycles: i32)
        requires
            old(self).wf(),
            0 <= cycles,
        ensures
            final(self).wf(),
            *final(self) == old(self).timer_stepped(cycles as int),
    {
        let ghost t0 = self.timer - cycles;
        let ghost p = self.period();
        let ghost l0 = self.lfsr;
        let period = self.reload_value();
        self.timer -= cycles;
        let ghost mut k: nat = 0;
        while self.timer <= 0
            invariant
                self.divisor_code <= 7 && self.shift <= 15 && self.vol_current <= 15
                    && self.vol_start <= 15 && self.env_period <= 7 && self.length <= 64,
                period == p,
                p == self.period(),
                8 <= p <= 112 * 32768,
                self.timer == t0 + k * p,
                self.timer <= 112 * 32768,
                t0 <= 0 ==> reloads(t0, p) == k + reloads(self.timer as int, p),
                t0 > 0 ==> k == 0,
                self.lfsr == lfsr_after(l0, self.width_mode, k),
                *old(self) == (Noise { timer: old(self).timer, lfsr: old(self).lfsr, ..*self }),
            decreases (if self.timer <= 0 { 1 - self.timer } else { 0 }),
        {
            proof {
                lemma_reloads_step(self.timer as int, p);
                assert((k + 1) * p == k * p + p) by (nonlinear_arith);
            }
            self.timer += period;
            let bit = (self.lfsr & 1) ^ ((self.lfsr >> 1) & 1);
            self.lfsr = (self.lfsr >> 1) | (bit << 14);
            if self.width_mode {
                self.lfsr = (self.lfsr & !0x40) | (bit << 6);
            }
            proof {
                k = k + 1;
            }
        }
    }

    fn output(&self) -> (r: u8)
        ensures
            r == self.level(),
    {
        if !self.enabled || !self.dac_on {
            return 0;
        }
        if self.lfsr & 1 == 0 { self.vol_current } else { 0 }
    }
}

/// One output sample as the channels produced it: each channel's level
/// (0..=15) and the mixer registers that route and scale them.
#[derive(Clone, Copy, PartialEq, Eq, Structural, Debug)]
pub struct AudioFrame {
    pub ch1: u8,
    pub ch2: u8,
    pub ch3: u8,
    pub ch4: u8,
    /// NR50: master volume (left in bits 0..3, right in bits 4..7).
    pub nr50: u8,
    /// NR51: channel routing (right in bits 0..4, left in bits 4..8).
    pub nr51: u8,
}

/// The audio processing unit.
pub struct Apu {
    pub enabled: bool,
    pub ch1: Square,
    pub ch2: Square,
    pub ch3: Wave,
    pub ch4: Noise,
    pub nr50: u8,
    pub nr51: u8,
    pub frame_seq: u8,
    pub frame_cycle_acc: i32,
    pub sample_acc: i32,
    pub buffer: Vec<AudioFrame>,
}

/// The abstract state of the APU.
pub ghost struct ApuModel {
    pub enabled: bool,
    pub ch1: Square,
    pub ch2: Square,
    pub ch3: WaveModel,
    pub ch4: Noise,
    pub nr50: u8,
    pub nr51: u8,
    pub frame_seq: u8,
    pub frame_cycle_acc: i32,
    pub sample_acc: i32,
    pub buffer: Seq<AudioFrame>,
}

impl View for Apu {
    type V = ApuModel;

    open spec fn view(&self) -> ApuModel {
        ApuModel {
            enabled: self.enabled,
            ch1: self.ch1,
            ch2: self.ch2,
            ch3: self.ch3@,
            ch4: self.ch4,
            nr50: self.nr50,
            nr51: self.nr51,
            frame_seq: self.frame_seq,
            frame_cycle_acc: self.frame_cycle_acc,
            sample_acc: self.sample_acc,
            buffer: self.buffer@,
        }
    }
}

/// The NRx2 (volume envelope) register value of a channel.
pub open spec fn envelope_reg(vol_start: u8, env_add: bool, env_period: u8) -> u8 {
    (vol_start << 4u8) | (if env_add { 0x08u8 } else { 0 }) | env_period
}

/// The NRx4 register as read back: only the length-enable bit is visible.
pub open spec fn length_enable_reg(length_enabled: bool) -> u8 {
    0xBF | (if length_enabled { 0x40u8 } else { 0 })
}

impl ApuModel {
    /// The channels and the sequencer position are valid.
    pub open spec fn channels_wf(self) -> bool {
        &&& self.ch1.wf()
        &&& self.ch2.wf()
        &&& self.ch3.wf()
        &&& self.ch4.wf()
        &&& self.ch1.has_sweep
        &&& !self.ch2.has_sweep
        &&& self.frame_seq < 8
    }

    pub open spec fn wf(self) -> bool {
        &&& self.channels_wf()
        &&& 0 <= self.frame_cycle_acc < FRAME_SEQ_PERIOD
        &&& 0 <= self.sample_acc < SAMPLE_PERIOD
    }

    /// What a read of sound register `addr` returns.
    pub open spec fn read(self, addr: u16) -> u8 {
        if addr == 0xFF10 {
            0x80 | (self.ch1.sweep_period << 4u8) | (if self.ch1.sweep_negate { 0x08u8 } else { 0 })
                | self.ch1.sweep_shift
        } else if addr == 0xFF11 {
            (self.ch1.duty << 6u8) | 0x3F
        } else if addr == 0xFF12 {
            envelope_reg(self.ch1.vol_start, self.ch1.env_add, self.ch1.env_period)
        } else if addr == 0xFF13 {
            0xFF
        } else if addr == 0xFF14 {
            length_enable_reg(self.ch1.length_enabled)
        } else if addr == 0xFF16 {
            (self.ch2.duty << 6u8) | 0x3F
        } else if addr == 0xFF17 {
            envelope_reg(self.ch2.vol_start, self.ch2.env_add, self.ch2.env_period)
        } else if addr == 0xFF19 {
            length_enable_reg(self.ch2.length_enabled)
        } else if addr == 0xFF1A {
            if self.ch3.dac_on { 0xFF } else { 0x7F }
        } else if addr == 0xFF1C {
            0x9F | (self.ch3.volume_shift << 5u8)
        } else if addr == 0xFF1E {
            length_enable_reg(self.ch3.length_enabled)
        } else if addr == 0xFF21 {
            envelope_reg(self.ch4.vol_start, self.ch4.env_add, self.ch4.env_period)
        } else if addr == 0xFF22 {
            (self.ch4.shift << 4u8) | (if self.ch4.width_mode { 0x08u8 } else { 0 }) | self.ch4.divisor_code
        } else if addr == 0xFF23 {
            length_enable_reg(self.ch4.length_enabled)
        } else if addr == 0xFF24 {
            self.nr50
        } else if addr == 0xFF25 {
            self.nr51
        } else if addr == 0xFF26 {
            (if self.enabled { 0x80u8 } else { 0 }) | (if self.ch1.enabled { 1u8 } else { 0 })
                | (if self.ch2.enabled { 2u8 } else { 0 }) | (if self.ch3.enabled { 4u8 } else { 0 })
                | (if self.ch4.enabled { 8u8 } else { 0 }) | 0x70
        } else if 0xFF30 <= addr <= 0xFF3F {
            self.ch3.ram[addr - 0xFF30]
        } else {
            0xFF
        }
    }

    /// A pulse channel after a write to its NRx2 (envelope) register.
    pub open spec fn square_envelope_written(ch: Square, val: u8) -> Square {
        let dac = val & 0xF8 != 0;
        Square {
            vol_start: val >> 4u8,
            env_add: val & 0x08 != 0,
            env_period: val & 0x07,
            dac_on: dac,
            enabled: if !dac { false } else { ch.enabled },
            ..ch
        }
    }

    /// A pulse channel after a write to its NRx4 register.
    pub open spec fn square_high_written(ch: Square, val: u8) -> Square {
        let c = Square {
            freq: (ch.freq & 0xFF) | (((val & 0x07) as u16) << 8u16),
            length_enabled: val & 0x40 != 0,
            ..ch
        };
        if val & 0x80 != 0 { c.triggered() } else { c }
    }

    /// The APU after a write of `val` to sound register `addr`. While the
    /// APU is off only NR52 and wave RAM accept writes.
    pub open spec fn write(self, addr: u16, val: u8) -> ApuModel {
        if !self.enabled && addr != 0xFF26 && !(0xFF30 <= addr <= 0xFF3F) {
            self
        } else if addr <= 0xFF14 {
            self.write_ch1(addr, val)
        } else if addr <= 0xFF19 {
            self.write_ch2(addr, val)
        } else if addr <= 0xFF1E {
            self.write_ch3(addr, val)
        } else if addr <= 0xFF23 {
            self.write_ch4(addr, val)
        } else {
            self.write_control(addr, val)
        }
    }

    pub open spec fn write_ch1(self, addr: u16, val: u8) -> ApuModel {
        if addr == 0xFF10 {
            ApuModel {
                ch1: Square {
                    sweep_period: (val >> 4u8) & 0x07,
                    sweep_negate: val & 0x08 != 0,
                    sweep_shift: val & 0x07,
                    ..self.ch1
                },
                ..self
            }
        } else if addr == 0xFF11 {
            ApuModel { ch1: Square { duty: val >> 6u8, length: (64 - (val & 0x3F)) as u16, ..self.ch1 }, ..self }
        } else if addr == 0xFF12 {
            ApuModel { ch1: Self::square_envelope_written(self.ch1, val), ..self }
        } else if addr == 0xFF13 {
            ApuModel { ch1: Square { freq: (self.ch1.freq & 0x700) | (val as u16), ..self.ch1 }, ..self }
        } else if addr == 0xFF14 {
            ApuModel { ch1: Self::square_high_written(self.ch1, val), ..self }
        } else {
            self
        }
    }

    pub open spec fn write_ch2(self, addr: u16, val: u8) -> ApuModel {
        if addr == 0xFF16 {
            ApuModel { ch2: Square { duty: val >> 6u8, length: (64 - (val & 0x3F)) as u16, ..self.ch2 }, ..self }
        } else if addr == 0xFF17 {
            ApuModel { ch2: Self::square_envelope_written(self.ch2, val), ..self }
        } else if addr == 0xFF18 {
            ApuModel { ch2: Square { freq: (self.ch2.freq & 0x700) | (val as u16), ..self.ch2 }, ..self }
        } else if addr == 0xFF19 {
            ApuModel { ch2: Self::square_high_written(self.ch2, val), ..self }
        } else {
            self
        }
    }

    pub open spec fn write_ch3(self, addr: u16, val: u8) -> ApuModel {
        if addr == 0xFF1A {
            let dac = val & 0x80 != 0;
            ApuModel {
                ch3: WaveModel { dac_on: dac, enabled: if !dac { false } else { self.ch3.enabled }, ..self.ch3 },
                ..self
            }
        } else if addr == 0xFF1B {
            ApuModel { ch3: WaveModel { length: (256 - val) as u16, ..self.ch3 }, ..self }
        } else if addr == 0xFF1C {
            ApuModel { ch3: WaveModel { volume_shift: (val >> 5u8) & 0x03, ..self.ch3 }, ..self }
        } else if addr == 0xFF1D {
            ApuModel { ch3: WaveModel { freq: (self.ch3.freq & 0x700) | (val as u16), ..self.ch3 }, ..self }
        } else if addr == 0xFF1E {
            let c = WaveModel {
                freq: (self.ch3.freq & 0xFF) | (((val & 0x07) as u16) << 8u16),
                length_enabled: val & 0x40 != 0,
                ..self.ch3
            };
            ApuModel { ch3: if val & 0x80 != 0 { c.triggered() } else { c }, ..self }
        } else {
            self
        }
    }

    pub open spec fn write_ch4(self, addr: u16, val: u8) -> ApuModel {
        if addr == 0xFF20 {
            ApuModel { ch4: Noise { length: (64 - (val & 0x3F)) as u16, ..self.ch4 }, ..self }
        } else if addr == 0xFF21 {
            let dac = val & 0xF8 != 0;
            ApuModel {
                ch4: Noise {
                    vol_start: val >> 4u8,
                    env_add: val & 0x08 != 0,
                    env_period: val & 0x07,
                    dac_on: dac,
                    enabled: if !dac { false } else { self.ch4.enabled },
                    ..self.ch4
                },
                ..self
            }
        } else if addr == 0xFF22 {
            ApuModel {
                ch4: Noise {
                    shift: val >> 4u8,
                    width_mode: val & 0x08 != 0,
                    divisor_code: val & 0x07,
                    ..self.ch4
                },
                ..self
            }
        } else if addr == 0xFF23 {
            let c = Noise { length_enabled: val & 0x40 != 0, ..self.ch4 };
            ApuModel { ch4: if val & 0x80 != 0 { c.triggered() } else { c }, ..self }
        } else {
            self
        }
    }

    pub open spec fn write_control(self, addr: u16, val: u8) -> ApuModel {
        if addr == 0xFF24 {
            ApuModel { nr50: val, ..self }
        } else if addr == 0xFF25 {
            ApuModel { nr51: val, ..self }
        } else if addr == 0xFF26 {
            ApuModel { enabled: val & 0x80 != 0, ..self }
        } else if 0xFF30 <= addr <= 0xFF3F {
            ApuModel { ch3: WaveModel { ram: self.ch3.ram.update(addr - 0xFF30, val), ..self.ch3 }, ..self }
        } else {
            self
        }
    }

    /// Clocks every channel's length counter.
    pub open spec fn lengths_stepped(self) -> ApuModel {
        ApuModel {
            ch1: self.ch1.length_stepped(),
            ch2: self.ch2.length_stepped(),
            ch3: self.ch3.length_stepped(),
            ch4: self.ch4.length_stepped(),
            ..self
        }
    }

    /// One 512 Hz frame-sequencer step: lengths on even steps, the sweep on
    /// steps 2 and 6, envelopes on step 7.
    pub open spec fn frame_tick(self) -> ApuModel {
        let s = self.frame_seq;
        let a = if s == 0 || s == 4 {
            self.lengths_stepped()
        } else if s == 2 || s == 6 {
            let l = self.lengths_stepped();
            ApuModel { ch1: l.ch1.sweep_stepped(), ..l }
        } else if s == 7 {
            ApuModel {
                ch1: self.ch1.envelope_stepped(),
                ch2: self.ch2.envelope_stepped(),
                ch4: self.ch4.envelope_stepped(),
                ..self
            }
        } else {
            self
        };
        ApuModel { frame_seq: ((s + 1) % 8) as u8, ..a }
    }

    pub open spec fn frame_ticks(self, n: nat) -> ApuModel
        decreases n,
    {
        if n == 0 { self } else { self.frame_ticks((n - 1) as nat).frame_tick() }
    }

    /// The sample the channels produce now.
    pub open spec fn frame(self) -> AudioFrame {
        AudioFrame {
            ch1: self.ch1.level(),
            ch2: self.ch2.level(),
            ch3: self.ch3.level(),
            ch4: self.ch4.level(),
            nr50: self.nr50,
            nr51: self.nr51,
        }
    }

    /// The APU after `cycles` T-cycles: channel timers run, the frame
    /// sequencer steps once per 8192 cycles, and one sample is recorded per
    /// 95 cycles.
    pub open spec fn stepped(self, cycles: int) -> ApuModel {
        if !self.enabled {
            self
        } else {
            let a = ApuModel {
                ch1: self.ch1.timer_stepped(cycles),
                ch2: self.ch2.timer_stepped(cycles),
                ch3: self.ch3.timer_stepped(cycles),
                ch4: self.ch4.timer_stepped(cycles),
                ..self
            };
            let ft = self.frame_cycle_acc + cycles;
            let b = ApuModel { frame_cycle_acc: (ft % 8192) as i32, ..a.frame_ticks((ft / 8192) as nat) };
            let st = self.sample_acc + cycles;
            let fr = b.frame();
            ApuModel {
                sample_acc: (st % 95) as i32,
                buffer: b.buffer + Seq::new((st / 95) as nat, |i: int| fr),
                ..b
            }
        }
    }
}

/// The APU state at power-on.
pub open spec fn apu_boot_state() -> ApuModel {
    ApuModel {
        enabled: true,
        ch1: Square::new_spec(true),
        ch2: Square::new_spec(false),
        ch3: WaveModel {
            enabled: false, dac_on: false, length: 0, length_enabled: false, freq: 0, timer: 0,
            volume_shift: 0, ram: Seq::new(16, |i: int| 0u8), pos: 0,
        },
        ch4: Noise {
            enabled: false, dac_on: false, length: 0, length_enabled: false, vol_start: 0,
            vol_current: 0, env_add: false, env_period: 0, env_timer: 0, shift: 0,
            width_mode: false, divisor_code: 0, lfsr: 0x7FFF, timer: 0,
        },
        nr50: 0x77,
        nr51: 0xF3,
        frame_seq: 0,
        frame_cycle_acc: 0,
        sample_acc: 0,
        buffer: Seq::empty(),
    }
}

impl Apu {
    pub open spec fn wf(&self) -> bool {
        self@.wf()
    }

    pub fn new() -> (a: Self)
        ensures
            a.wf(),
            a@ == apu_boot_state(),
    {
        let a = Apu {
            enabled: true,
            ch1: Square::new(true),
            ch2: Square::new(false),
            ch3: Wave::new(),
            ch4: Noise::new(),
            nr50: 0x77,
            nr51: 0xF3,
            frame_seq: 0,
            frame_cycle_acc: 0,
            sample_acc: 0,
            buffer: Vec::with_capacity(4096),
        };
        assert(a@.buffer =~= Seq::<AudioFrame>::empty());
        a
    }

    pub fn read(&self, addr: u16) -> (r: u8)
        requires
            self.wf(),
        ensures
            r == self@.read(addr),
    {
        if addr == 0xFF10 {
            0x80 | (self.ch1.sweep_period << 4) | (if self.ch1.sweep_negate { 0x08 } else { 0 })
                | self.ch1.sweep_shift
        } else if addr == 0xFF11 {
            (self.ch1.duty << 6) | 0x3F
        } else if addr == 0xFF12 {
            (self.ch1.vol_start << 4) | (if self.ch1.env_add { 0x08 } else { 0 }) | self.ch1.env_period
        } else if addr == 0xFF13 {
            0xFF
        } else if addr == 0xFF14 {
            0xBF | (if self.ch1.length_enabled { 0x40 } else { 0 })
        } else if addr == 0xFF16 {
            (self.ch2.duty << 6) | 0x3F
        } else if addr == 0xFF17 {
            (self.ch2.vol_start << 4) | (if self.ch2.env_add { 0x08 } else { 0 }) | self.ch2.env_period
        } else if addr == 0xFF19 {
            0xBF | (if self.ch2.length_enabled { 0x40 } else { 0 })
        } else if addr == 0xFF1A {
            if self.ch3.dac_on { 0xFF } else { 0x7F }
        } else if addr == 0xFF1C {
            0x9F | (self.ch3.volume_shift << 5)
        } else if addr == 0xFF1E {
            0xBF | (if self.ch3.length_enabled { 0x40 } else { 0 })
        } else if addr == 0xFF21 {
            (self.ch4.vol_start << 4) | (if self.ch4.env_add { 0x08 } else { 0 }) | self.ch4.env_period
        } else if addr == 0xFF22 {
            (self.ch4.shift << 4) | (if self.ch4.width_mode { 0x08 } else { 0 }) | self.ch4.divisor_code
        } else if addr == 0xFF23 {
            0xBF | (if self.ch4.length_enabled { 0x40 } else { 0 })
        } else if addr == 0xFF24 {
            self.nr50
        } else if addr == 0xFF25 {
            self.nr51
        } else if addr == 0xFF26 {
            let mut v: u8 = if self.enabled { 0x80 } else { 0 };
            v |= if self.ch1.enabled { 1 } else { 0 };
            v |= if self.ch2.enabled { 2 } else { 0 };
            v |= if self.ch3.enabled { 4 } else { 0 };
            v |= if self.ch4.enabled { 8 } else { 0 };
            v | 0x70
        } else if 0xFF30 <= addr && addr <= 0xFF3F {
            self.ch3.ram[(addr - 0xFF30) as usize]
        } else {
            0xFF
        }
    }

    pub fn write(&mut self, addr: u16, val: u8)
        requires
            old(self).wf(),
        ensures
            final(self).wf(),
            final(self)@ == old(self)@.write(addr, val),
    {
        if !self.enabled && addr != 0xFF26 && !(0xFF30 <= addr && addr <= 0xFF3F) {
            return;
        }
        if addr <= 0xFF14 {
            self.write_ch1(addr, val);
        } else if addr <= 0xFF19 {
            self.write_ch2(addr, val);
        } else if addr <= 0xFF1E {
            self.write_ch3(addr, val);
        } else if addr <= 0xFF23 {
            self.write_ch4(addr, val);
        } else {
            self.write_control(addr, val);
        }
    }

    fn write_ch1(&mut self, addr: u16, val: u8)
        requires
            old(self).wf(),
        ensures
            final(self).wf(),
            final(self)@ == old(self)@.write_ch1(addr, val),
    {
        let f1 = self.ch1.freq;
        assert((val >> 4u8) & 0x07 <= 7 && val & 0x07 <= 7 && val >> 6u8 <= 3 && val >> 4u8 <= 15
            && val & 0x3F <= 0x3F) by (bit_vector);
        assert(f1 <= 0x7FF ==> (f1 & 0x700) | (val as u16) <= 0x7FF
            && (f1 & 0xFF) | (((val & 0x07) as u16) << 8u16) <= 0x7FF) by (bit_vector);
        if addr == 0xFF10 {
            self.ch1.sweep_period = (val >> 4) & 0x07;
            self.ch1.sweep_negate = val & 0x08 != 0;
            self.ch1.sweep_shift = val & 0x07;
        } else if addr == 0xFF11 {
            self.ch1.duty = val >> 6;
            self.ch1.length = 64 - (val & 0x3F) as u16;
        } else if addr == 0xFF12 {
            self.ch1.vol_start = val >> 4;
            self.ch1.env_add = val & 0x08 != 0;
            self.ch1.env_period = val & 0x07;
            self.ch1.dac_on = val & 0xF8 != 0;
            if !self.ch1.dac_on {
                self.ch1.enabled = false;
            }
        } else if addr == 0xFF13 {
            self.ch1.freq = (self.ch1.freq & 0x700) | val as u16;
        } else if addr == 0xFF14 {
            self.ch1.freq = (self.ch1.freq & 0xFF) | (((val & 0x07) as u16) << 8);
            self.ch1.length_enabled = val & 0x40 != 0;
            if val & 0x80 != 0 {
                self.ch1.trigger();
            }
        }
    }

    fn write_ch2(&mut self, addr: u16, val: u8)
        requires
            old(self).wf(),
        ensures
            final(self).wf(),
            final(self)@ == old(self)@.write_ch2(addr, val),
    {
        let f2 = self.ch2.freq;
        assert(val & 0x07 <= 7 && val >> 6u8 <= 3 && val >> 4u8 <= 15 && val & 0x3F <= 0x3F) by (bit_vector);
        assert(f2 <= 0x7FF ==> (f2 & 0x700) | (val as u16) <= 0x7FF
            && (f2 & 0xFF) | (((val & 0x07) as u16) << 8u16) <= 0x7FF) by (bit_vector);
        if addr == 0xFF16 {
            self.ch2.duty = val >> 6;
            self.ch2.length = 64 - (val & 0x3F) as u16;
        } else if addr == 0xFF17 {
            self.ch2.vol_start = val >> 4;
            self.ch2.env_add = val & 0x08 != 0;
            self.ch2.env_period = val & 0x07;
            self.ch2.dac_on = val & 0xF8 != 0;
            if !self.ch2.dac_on {
                self.ch2.enabled = false;
            }
        } else if addr == 0xFF18 {
            self.ch2.freq = (self.ch2.freq & 0x700) | val as u16;
        } else if addr == 0xFF19 {
            self.ch2.freq = (self.ch2.freq & 0xFF) | (((val & 0x07) as u16) << 8);
            self.ch2.length_enabled = val & 0x40 != 0;
            if val & 0x80 != 0 {
                self.ch2.trigger();
            }
        }
    }

    fn write_ch3(&mut self, addr: u16, val: u8)
        requires
            old(self).wf(),
        ensures
            final(self).wf(),
            final(self)@ == old(self)@.write_ch3(addr, val),
    {
        let f3 = self.ch3.freq;
        assert((val >> 5u8) & 0x03 <= 3) by (bit_vector);
        assert(f3 <= 0x7FF ==> (f3 & 0x700) | (val as u16) <= 0x7FF
            && (f3 & 0xFF) | (((val & 0x07) as u16) << 8u16) <= 0x7FF) by (bit_vector);
        if addr == 0xFF1A {
            self.ch3.dac_on = val & 0x80 != 0;
            if !self.ch3.dac_on {
                self.ch3.enabled = false;
            }
        } else if addr == 0xFF1B {
            self.ch3.length = 256 - val as u16;
        } else if addr == 0xFF1C {
            self.ch3.volume_shift = (val >> 5) & 0x03;
        } else if addr == 0xFF1D {
            self.ch3.freq = (self.ch3.freq & 0x700) | val as u16;
        } else if addr == 0xFF1E {
            self.ch3.freq = (self.ch3.freq & 0xFF) | (((val & 0x07) as u16) << 8);
            self.ch3.length_enabled = val & 0x40 != 0;
            if val & 0x80 != 0 {
                self.ch3.trigger();
            }
        }
    }

    fn write_ch4(&mut self, addr: u16, val: u8)
        requires
            old(self).wf(),
        ensures
            final(self).wf(),
            final(self)@ == old(self)@.write_ch4(addr, val),
    {
        assert(val & 0x07 <= 7 && val >> 4u8 <= 15 && val & 0x3F <= 0x3F) by (bit_vector);
        if addr == 0xFF20 {
            self.ch4.length = 64 - (val & 0x3F) as u16;
        } else if addr == 0xFF21 {
            self.ch4.vol_start = val >> 4;
            self.ch4.env_add = val & 0x08 != 0;
            self.ch4.env_period = val & 0x07;
            self.ch4.dac_on = val & 0xF8 != 0;
            if !self.ch4.dac_on {
                self.ch4.enabled = false;
            }
        } else if addr == 0xFF22 {
            self.ch4.shift = val >> 4;
            self.ch4.width_mode = val & 0x08 != 0;
            self.ch4.divisor_code = val & 0x07;
        } else if addr == 0xFF23 {
            self.ch4.length_enabled = val & 0x40 != 0;
            if val & 0x80 != 0 {
                self.ch4.trigger();
            }
        }
    }

    fn write_control(&mut self, addr: u16, val: u8)
        requires
            old(self).wf(),
        ensures
            final(self).wf(),
            final(self)@ == old(self)@.write_control(addr, val),
    {
        if addr == 0xFF24 {
            self.nr50 = val;
        } else if addr == 0xFF25 {
            self.nr51 = val;
        } else if addr == 0xFF26 {
            self.enabled = val & 0x80 != 0;
        } else if 0xFF30 <= addr && addr <= 0xFF3F {
            self.ch3.ram[(addr - 0xFF30) as usize] = val;
        }
    }

    fn step_lengths(&mut self)
        requires
            old(self)@.channels_wf(),
        ensures
            final(self)@.channels_wf(),
            final(self)@ == old(self)@.lengths_stepped(),
    {
        self.ch1.step_length();
        self.ch2.step_length();
        self.ch3.step_length();
        self.ch4.step_length();
    }

    fn frame_tick(&mut self)
        requires
            old(self)@.channels_wf(),
        ensures
            final(self)@.channels_wf(),
            final(self)@ == old(self)@.frame_tick(),
    {
        let s = self.frame_seq;
        if s == 0 || s == 4 {
            self.step_lengths();
        } else if s == 2 || s == 6 {
            self.step_lengths();
            self.ch1.step_sweep();
        } else if s == 7 {
            self.ch1.step_envelope();
            self.ch2.step_envelope();
            self.ch4.step_envelope();
        }
        self.frame_seq = (self.frame_seq + 1) % 8;
    }

    pub fn step(&mut self, cycles: u32)
        requires
            old(self).wf(),
            old(self)@.enabled ==> old(self)@.frame_cycle_acc + cycles <= i32::MAX,
            old(self)@.enabled ==> old(self)@.sample_acc + cycles <= i32::MAX,
        ensures
            final(self).wf(),
            final(self)@ == old(self)@.stepped(cycles as int),
    {
        if !self.enabled {
            return;
        }
        let c = cycles as i32;
        self.ch1.step(c);
        self.ch2.step(c);
        self.ch3.step(c);
        self.ch4.step(c);

        let ghost a = self@;
        self.frame_cycle_acc += c;
        let ghost ft = self.frame_cycle_acc as int;
        let ghost mut k: nat = 0;
        while self.frame_cycle_acc >= FRAME_SEQ_PERIOD
            invariant
                self@.channels_wf(),
                0 <= self.sample_acc < SAMPLE_PERIOD,
                self.sample_acc == a.sample_acc,
                self.sample_acc + c <= i32::MAX,
                0 <= self.frame_cycle_acc <= ft,
                ft == self.frame_cycle_acc + k * 8192,
                self@ == (ApuModel { frame_cycle_acc: self.frame_cycle_acc, ..a.frame_ticks(k) }),
            decreases self.frame_cycle_acc,
        {
            self.frame_cycle_acc -= FRAME_SEQ_PERIOD;
            self.frame_tick();
            proof {
                assert((k + 1) * 8192 == k * 8192 + 8192) by (nonlinear_arith);
                k = k + 1;
            }
        }
        proof {
            vstd::arithmetic::div_mod::lemma_fundamental_div_mod_converse(ft, 8192, k as int,
                self.frame_cycle_acc as int);
        }

        let ghost b = self@;
        self.sample_acc += c;
        let ghost st = self.sample_acc as int;
        let ghost mut m: nat = 0;
        while self.sample_acc >= SAMPLE_PERIOD
            invariant
                self@.channels_wf(),
                0 <= self.frame_cycle_acc < FRAME_SEQ_PERIOD,
                0 <= self.sample_acc <= st,
                st == self.sample_acc + m * 95,
                self@ == (ApuModel {
                    sample_acc: self.sample_acc,
                    buffer: b.buffer + Seq::new(m, |i: int| b.frame()),
                    ..b
                }),
            decreases self.sample_acc,
        {
            self.sample_acc -= SAMPLE_PERIOD;
            self.push_sample();
            proof {
                assert((m + 1) * 95 == m * 95 + 95) by (nonlinear_arith);
                assert(b.buffer + Seq::new(m, |i: int| b.frame()).push(b.frame())
                    =~= b.buffer + Seq::new(m + 1, |i: int| b.frame()));
                m = m + 1;
            }
        }
        proof {
            vstd::arithmetic::div_mod::lemma_fundamental_div_mod_converse(st, 95, m as int,
                self.sample_acc as int);
        }
    }

    /// Records the sample the channels produce now.
    fn push_sample(&mut self)
        requires
            old(self)@.ch1.wf() && old(self)@.ch2.wf() && old(self)@.ch3.wf(),
        ensures
            final(self)@ == (ApuModel { buffer: old(self)@.buffer.push(old(self)@.frame()), ..old(self)@ }),
    {
        let f = AudioFrame {
            ch1: self.ch1.output(),
            ch2: self.ch2.output(),
            ch3: self.ch3.output(),
            ch4: self.ch4.output(),
            nr50: self.nr50,
            nr51: self.nr51,
        };
        self.buffer.push(f);
    }

    /// Hands over the recorded samples and leaves the buffer empty.
    pub fn take_buffer(&mut self) -> (r: Vec<AudioFrame>)
        ensures
            r@ == old(self)@.buffer,
            final(self)@ == (ApuModel { buffer: Seq::empty(), ..old(self)@ }),
    {
        let mut out = Vec::new();
        std::mem::swap(&mut out, &mut self.buffer);
        out
    }
}

/// NR52's top bit reads back whether the APU is powered.
pub proof fn law_nr52_reflects_power(a: ApuModel)
    ensures
        (a.read(0xFF26) & 0x80 != 0) == a.enabled,
{
    let e: u8 = if a.enabled { 0x80 } else { 0 };
    let b1: u8 = if a.ch1.enabled { 1 } else { 0 };
    let b2: u8 = if a.ch2.enabled { 2 } else { 0 };
    let b3: u8 = if a.ch3.enabled { 4 } else { 0 };
    let b4: u8 = if a.ch4.enabled { 8 } else { 0 };
    assert((e == 0x80 || e == 0) && b1 <= 1 && b2 <= 2 && b3 <= 4 && b4 <= 8
        ==> ((e | b1 | b2 | b3 | b4 | 0x70) & 0x80 != 0) == (e == 0x80)) by (bit_vector);
}

/// While powered, the APU records one sample per 95 T-cycles.
pub proof fn law_sample_rate(a: ApuModel, cycles: int)
    requires
        a.enabled,
        cycles >= 0,
        a.sample_acc >= 0,
    ensures
        a.stepped(cycles).buffer.len() == a.buffer.len() + (a.sample_acc + cycles) / 95,
{
    let t = ApuModel {
        ch1: a.ch1.timer_stepped(cycles),
        ch2: a.ch2.timer_stepped(cycles),
        ch3: a.ch3.timer_stepped(cycles),
        ch4: a.ch4.timer_stepped(cycles),
        ..a
    };
    lemma_frame_ticks_keep_buffer(t, ((a.frame_cycle_acc + cycles) / 8192) as nat);
}

proof fn lemma_frame_ticks_keep_buffer(a: ApuModel, n: nat)
    ensures
        a.frame_ticks(n).buffer == a.buffer,
        a.frame_ticks(n).sample_acc == a.sample_acc,
        a.frame_ticks(n).enabled == a.enabled,
    decreases n,
{
    if n > 0 {
        lemma_frame_ticks_keep_buffer(a, (n - 1) as nat);
    }
}

/// The APU after stepping `cs[0]`, then `cs[1]`, ... T-cycles in turn.
pub open spec fn run_steps(a: ApuModel, cs: Seq<int>) -> ApuModel
    decreases cs.len(),
{
    if cs.len() == 0 {
        a
    } else {
        run_steps(a, cs.drop_last()).stepped(cs.last())
    }
}

/// The sum of a sequence of cycle counts.
pub open spec fn total_cycles(cs: Seq<int>) -> int
    decreases cs.len(),
{
    if cs.len() == 0 {
        0
    } else {
        total_cycles(cs.drop_last()) + cs.last()
    }
}

/// Over any run of steps while powered, the buffer grows by one sample per
/// 95 T-cycles of the whole run, however the cycles were split into steps;
/// what is left over carries into the next run.
pub proof fn law_sample_rate_over_steps(a: ApuModel, cs: Seq<int>)
    requires
        a.enabled,
        0 <= a.sample_acc < 95,
        forall|i: int| 0 <= i < cs.len() ==> cs[i] >= 0,
    ensures
        run_steps(a, cs).enabled,
        run_steps(a, cs).buffer.len() == a.buffer.len() + (a.sample_acc + total_cycles(cs)) / 95,
        run_steps(a, cs).sample_acc == (a.sample_acc + total_cycles(cs)) % 95,
    decreases cs.len(),
{
    if cs.len() > 0 {
        let pre = cs.drop_last();
        law_sample_rate_over_steps(a, pre);
        lemma_total_cycles_nonneg(pre);
        let b = run_steps(a, pre);
        let c = cs.last();
        law_sample_rate(b, c);
        let t = ApuModel {
            ch1: b.ch1.timer_stepped(c),
            ch2: b.ch2.timer_stepped(c),
            ch3: b.ch3.timer_stepped(c),
            ch4: b.ch4.timer_stepped(c),
            ..b
        };
        lemma_frame_ticks_keep_buffer(t, ((b.frame_cycle_acc + c) / 8192) as nat);
        let x = a.sample_acc + total_cycles(pre);
        assert(x / 95 + (x % 95 + c) / 95 == (x + c) / 95);
        assert((x % 95 + c) % 95 == (x + c) % 95);
    }
}

proof fn lemma_total_cycles_nonneg(cs: Seq<int>)
    requires
        forall|i: int| 0 <= i < cs.len() ==> cs[i] >= 0,
    ensures
        total_cycles(cs) >= 0,
    decreases cs.len(),
{
    if cs.len() > 0 {
        lemma_total_cycles_nonneg(cs.drop_last());
    }
}

/// The wave channel plays wave RAM as 32 four-bit samples, the upper nibble
/// of each byte first: at position 2k the level is the high nibble of byte k,
/// at 2k + 1 its low nibble, shifted right by 0, 1 or 2 for the volume codes
/// 1, 2, 3 (100%, 50%, 25%), and 0 when muted or off.
pub proof fn law_wave_plays_high_nibble_first(w: WaveModel)
    requires
        w.wf(),
    ensures
        ({
            let byte = w.ram[(w.pos / 2) as int];
            let nibble: u8 = if w.pos % 2 == 0 { byte / 16 } else { byte % 16 };
            &&& (!w.enabled || !w.dac_on || w.volume_shift == 0) ==> w.level() == 0
            &&& (w.enabled && w.dac_on && w.volume_shift == 1) ==> w.level() == nibble
            &&& (w.enabled && w.dac_on && w.volume_shift == 2) ==> w.level() == nibble / 2
            &&& (w.enabled && w.dac_on && w.volume_shift == 3) ==> w.level() == nibble / 4
        }),
{
    let byte = w.ram[(w.pos / 2) as int];
    let n: u8 = if w.pos % 2 == 0 { byte >> 4u8 } else { byte & 0x0F };
    assert(byte >> 4u8 == byte / 16 && byte & 0x0F == byte % 16 && n >> 0u8 == n && n >> 1u8 == n / 2
        && n >> 2u8 == n / 4) by (bit_vector);
}

} // verus!
