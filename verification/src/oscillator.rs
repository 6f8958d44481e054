//! A sine oscillator whose phase never jumps.
//!
//! Phase is counted in ticks: one cycle has as many ticks as a second has
//! samples, so that a tone of `f` hertz moves the phase by `f` ticks a sample.
//! The sample to play at a phase of `p` ticks is the sine of `p` cycle-th
//! parts of a full turn.

use vstd::arithmetic::div_mod::{
    lemma_add_mod_noop,
    lemma_fundamental_div_mod_converse,
    lemma_mod_bound,
    lemma_mod_multiples_vanish,
    lemma_mul_mod_noop_general,
    lemma_small_mod,
};
use vstd::arithmetic::mul::lemma_mul_is_distributive_add_other_way;
use vstd::prelude::*;

verus! {

/// What an oscillator remembers from one sample to the next.
pub struct OscillatorState {
    /// Samples a second, which is also ticks a cycle.
    pub sample_rate: int,
    /// Samples since the frequency last changed, wrapping at the sample rate.
    pub clock: int,
    /// The phase of the sample last made, within one cycle.
    pub phase: int,
    /// The phase at which the frequency last changed.
    pub offset: int,
    /// The frequency of the sample last made, in hertz.
    pub frequency: int,
}

impl OscillatorState {
    /// The state before the first sample.
    pub open spec fn initial(sample_rate: int) -> OscillatorState {
        OscillatorState { sample_rate, clock: 0, phase: 0, offset: 0, frequency: 0 }
    }

    /// The phase is where the clock, the frequency and the offset put it.
    pub open spec fn wf(self) -> bool {
        &&& 0 < self.sample_rate
        &&& 0 <= self.clock
        &&& self.clock < self.sample_rate || self.clock == 1
        &&& 0 <= self.offset < self.sample_rate
        &&& self.phase == (self.clock * self.frequency + self.offset) % self.sample_rate
    }

    /// The state after one more sample at `frequency`. A change of frequency
    /// restarts the clock at its first step and keeps the phase reached so far
    /// as the new offset.
    pub open spec fn advance(self, frequency: int) -> OscillatorState {
        let changed = frequency != self.frequency;
        let clock = if changed {
            1
        } else {
            (self.clock + 1) % self.sample_rate
        };
        let offset = if changed {
            self.phase
        } else {
            self.offset
        };
        OscillatorState {
            sample_rate: self.sample_rate,
            clock,
            phase: (clock * frequency + offset) % self.sample_rate,
            offset,
            frequency,
        }
    }

    /// The state after `count` more samples at `frequency`.
    pub open spec fn advance_by(self, frequency: int, count: nat) -> OscillatorState
        decreases count,
    {
        if count == 0 {
            self
        } else {
            self.advance_by(frequency, (count - 1) as nat).advance(frequency)
        }
    }

    /// Where the phase stands `count` samples on, if each of them moves it by
    /// `frequency` ticks.
    pub open spec fn phase_after(self, frequency: int, count: nat) -> int {
        (self.phase + count * frequency) % self.sample_rate
    }
}

/// A sample keeps the state well formed.
pub proof fn lemma_advance_wf(s: OscillatorState, frequency: int)
    requires
        s.wf(),
    ensures
        s.advance(frequency).wf(),
        s.advance(frequency).sample_rate == s.sample_rate,
        s.advance(frequency).frequency == frequency,
{
    lemma_mod_bound(s.clock * s.frequency + s.offset, s.sample_rate);
    lemma_mod_bound(s.clock + 1, s.sample_rate);
}

/// Phase continuity: every sample moves the phase by exactly the ticks of the
/// frequency it is made at, within the cycle. It does so when the frequency
/// has just changed and when the clock has just wrapped, so the waveform goes
/// on from where it was.
pub proof fn lemma_phase_continuity(s: OscillatorState, frequency: int)
    requires
        s.wf(),
    ensures
        s.advance(frequency).phase == (s.phase + frequency) % s.sample_rate,
        s.advance(frequency).phase == s.phase_after(frequency, 1),
{
    let m = s.sample_rate;
    let t = s.advance(frequency);
    lemma_mod_bound(s.clock * s.frequency + s.offset, m);
    if frequency != s.frequency {
        assert(t.phase == (1 * frequency + s.phase) % m);
    } else {
        let c = s.clock;
        let f = frequency;
        let o = s.offset;
        // the wrapped clock counts as the clock plus one
        lemma_mul_mod_noop_general(c + 1, f, m);
        assert((t.clock * f) % m == ((c + 1) * f) % m);
        lemma_add_mod_noop(t.clock * f, o, m);
        lemma_add_mod_noop((c + 1) * f, o, m);
        assert(t.phase == ((c + 1) * f + o) % m);
        lemma_mul_is_distributive_add_other_way(f, c, 1);
        assert((c + 1) * f + o == (c * f + o) + f);
        lemma_add_mod_noop(c * f + o, f, m);
        lemma_small_mod(s.phase as nat, m as nat);
        lemma_add_mod_noop(s.phase, f, m);
    }
}

/// After any number of samples at one frequency the phase has moved by that
/// many times the frequency's ticks, within the cycle.
pub proof fn lemma_phase_after(s: OscillatorState, frequency: int, count: nat)
    requires
        s.wf(),
    ensures
        s.advance_by(frequency, count).wf(),
        s.advance_by(frequency, count).sample_rate == s.sample_rate,
        s.advance_by(frequency, count).phase == s.phase_after(frequency, count),
        count > 0 ==> s.advance_by(frequency, count).frequency == frequency,
    decreases count,
{
    let m = s.sample_rate;
    lemma_mod_bound(s.clock * s.frequency + s.offset, m);
    if count == 0 {
        assert(count * frequency == 0) by (nonlinear_arith)
            requires
                count == 0,
        ;
        lemma_small_mod(s.phase as nat, m as nat);
    } else {
        let before = (count - 1) as nat;
        let r = s.advance_by(frequency, before);
        lemma_phase_after(s, frequency, before);
        lemma_advance_wf(r, frequency);
        lemma_phase_continuity(r, frequency);
        let reached = s.phase + before * frequency;
        assert(r.phase == reached % m);
        assert(count * frequency == before * frequency + frequency) by (nonlinear_arith)
            requires
                count == before + 1,
        ;
        lemma_add_mod_noop(reached, frequency, m);
        lemma_small_mod(r.phase as nat, m as nat);
        lemma_add_mod_noop(r.phase, frequency, m);
        assert(r.advance(frequency).phase == (reached + frequency) % m);
    }
}

/// A tone of `f` hertz makes `f` whole cycles a second: after as many samples
/// as a second has, the phase is back where it was.
pub proof fn lemma_whole_cycles_a_second(s: OscillatorState, frequency: int)
    requires
        s.wf(),
    ensures
        s.phase_after(frequency, s.sample_rate as nat) == s.phase,
{
    let m = s.sample_rate;
    lemma_mod_bound(s.clock * s.frequency + s.offset, m);
    lemma_mod_multiples_vanish(frequency, s.phase, m);
    lemma_small_mod(s.phase as nat, m as nat);
}

/// The oscillator of one output stream.
pub struct Oscillator {
    sample_rate: u32,
    clock: u32,
    phase: u32,
    offset: u32,
    frequency: i128,
}

impl View for Oscillator {
    type V = OscillatorState;

    closed spec fn view(&self) -> OscillatorState {
        OscillatorState {
            sample_rate: self.sample_rate as int,
            clock: self.clock as int,
            phase: self.phase as int,
            offset: self.offset as int,
            frequency: self.frequency as int,
        }
    }
}

impl Oscillator {
    /// Every oscillator that exists is well formed.
    #[verifier::type_invariant]
    pub open spec fn inv(self) -> bool {
        self@.wf()
    }

    /// An oscillator at rest for a stream of `sample_rate` samples a second.
    /// There is none for a rate of zero.
    pub fn new(sample_rate: u32) -> (made: Option<Oscillator>)
        ensures
            sample_rate == 0 <==> made is None,
            made matches Some(o) ==> o@ == OscillatorState::initial(sample_rate as int) && o@.wf(),
    {
        if sample_rate == 0 {
            None
        } else {
            assert(0int % (sample_rate as int) == 0);
            Some(Oscillator { sample_rate, clock: 0, phase: 0, offset: 0, frequency: 0 })
        }
    }

    pub fn sample_rate(&self) -> (rate: u32)
        ensures
            rate == self@.sample_rate,
    {
        self.sample_rate
    }

    pub fn clock(&self) -> (clock: u32)
        ensures
            clock == self@.clock,
    {
        self.clock
    }

    pub fn phase(&self) -> (phase: u32)
        ensures
            phase == self@.phase,
    {
        self.phase
    }

    pub fn phase_offset(&self) -> (offset: u32)
        ensures
            offset == self@.offset,
    {
        self.offset
    }

    pub fn frequency(&self) -> (hertz: i128)
        ensures
            hertz == self@.frequency,
    {
        self.frequency
    }

    /// Makes the next sample at `frequency` hertz and returns its phase in
    /// ticks.
    pub fn advance(&mut self, frequency: i128) -> (phase: u32)
        ensures
            old(self)@.wf(),
            final(self)@.wf(),
            final(self)@ == old(self)@.advance(frequency as int),
            phase == final(self)@.phase,
            phase == (old(self)@.phase + frequency) % old(self)@.sample_rate,
        no_unwind
    {
        proof {
            use_type_invariant(&*self);
            lemma_advance_wf(self@, frequency as int);
            lemma_phase_continuity(self@, frequency as int);
            lemma_mod_bound(self@.clock * self@.frequency + self@.offset, self@.sample_rate);
        }
        let rate: u64 = self.sample_rate as u64;
        let clock: u64 = if frequency != self.frequency {
            1
        } else {
            (self.clock as u64 + 1) % rate
        };
        let offset: u32 = if frequency != self.frequency {
            self.phase
        } else {
            self.offset
        };
        let step: u64 = ticks_per_sample(frequency, self.sample_rate) as u64;
        assert(clock * step + offset <= u64::MAX) by (nonlinear_arith)
            requires
                0 <= clock <= 0xffff_ffff,
                0 <= step <= 0xffff_fffe,
                0 <= offset <= 0xffff_ffff,
        ;
        let phase: u64 = (clock * step + offset as u64) % rate;
        proof {
            let m = rate as int;
            lemma_mul_mod_noop_general(clock as int, frequency as int, m);
            lemma_add_mod_noop(clock * step, offset as int, m);
            lemma_add_mod_noop(clock * frequency, offset as int, m);
        }
        *self = Oscillator {
            sample_rate: self.sample_rate,
            clock: clock as u32,
            phase: phase as u32,
            offset,
            frequency,
        };
        phase as u32
    }
}

/// The ticks by which one sample at `frequency` hertz moves the phase, within
/// the cycle. A negative frequency runs the phase backward, which within the
/// cycle is a step forward by the rest of the cycle.
pub fn ticks_per_sample(frequency: i128, sample_rate: u32) -> (ticks: u32)
    requires
        sample_rate > 0,
    ensures
        ticks == (frequency as int) % (sample_rate as int),
    no_unwind
{
    let rate: u128 = sample_rate as u128;
    if frequency >= 0 {
        (frequency as u128 % rate) as u32
    } else {
        let back: u128 = (-(frequency + 1)) as u128;
        let rest: u128 = back % rate;
        proof {
            let q = (back / rate) as int;
            assert(back == q * rate + rest) by (nonlinear_arith)
                requires
                    q == (back / rate) as int,
                    rest == back % rate,
                    rate > 0,
            ;
            assert(frequency as int == (-q - 1) * rate + (rate - 1 - rest)) by (nonlinear_arith)
                requires
                    back == q * rate + rest,
                    frequency == -back - 1,
            ;
            lemma_fundamental_div_mod_converse(
                frequency as int,
                rate as int,
                -q - 1,
                rate - 1 - rest,
            );
        }
        (rate - 1 - rest) as u32
    }
}

} // verus!
