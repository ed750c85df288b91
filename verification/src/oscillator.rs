//! The oscillator: a phase that walks through a shared wavetable.
//!
//! The phase is a fixed-point index into the table. Each sample is read by
//! linear interpolation between the two table entries around the phase,
//! after which the phase moves on by an increment that the frequency sets
//! and wraps around the end of the table.

use crate::fixed::{
    div_toward_zero, lemma_div_toward_zero_between, lemma_div_toward_zero_bounded, wrap, ONE,
};
use crate::wavetable::{normalized, Wavetable};
use vstd::arithmetic::div_mod::{lemma_mod_bound, lemma_mod_self_0, lemma_small_mod};
use vstd::prelude::*;

verus! {

/// Every phase increment is smaller than this in magnitude.
pub const INCREMENT_LIMIT: i64 = 0x0200_0000_0000_0000;

/// How far the phase moves per sample for a frequency given in hundredths
/// of a hertz: `frequency * table_len / sample_rate` table entries.
pub open spec fn phase_increment(frequency: int, table_len: int, sample_rate: int) -> int {
    div_toward_zero(frequency * table_len * ONE, 100 * sample_rate)
}

/// The table read at a fractional position: the entry under the phase and
/// the entry after it, which for the last entry is the first, weighted by
/// how far the phase has moved from the one toward the other.
pub open spec fn interpolate(table: Seq<i32>, phase: int) -> int
    recommends
        0 <= phase < table.len() * ONE,
{
    let slot = phase / (ONE as int);
    let weight = phase % (ONE as int);
    let next = (slot + 1) % (table.len() as int);
    div_toward_zero(table[slot] * (ONE - weight) + table[next] * weight, ONE as int)
}

/// The state of an oscillator.
pub struct OscillatorView {
    /// Samples per second.
    pub sample_rate: int,
    /// The table being played.
    pub table: Seq<i32>,
    /// The position in the table, in fixed point.
    pub phase: int,
    /// What the phase moves by per sample, in fixed point.
    pub increment: int,
    /// Whether the oscillator sounds.
    pub playing: bool,
}

impl OscillatorView {
    /// The phase lies within the table, and the sample rate, the table and
    /// the increment are such as an oscillator can hold.
    pub open spec fn wf(self) -> bool {
        &&& 0 < self.sample_rate <= u32::MAX
        &&& normalized(self.table)
        &&& 0 <= self.phase
        &&& if self.table.len() == 0 {
            self.phase == 0
        } else {
            self.phase < self.table.len() * ONE
        }
        &&& -INCREMENT_LIMIT < self.increment < INCREMENT_LIMIT
    }

    /// A silent oscillator at the start of the table, not yet tuned.
    pub open spec fn fresh(sample_rate: int, table: Seq<i32>) -> Self {
        OscillatorView { sample_rate, table, phase: 0, increment: 0, playing: false }
    }

    /// The same oscillator tuned to a frequency in hundredths of a hertz.
    pub open spec fn tuned(self, frequency: int) -> Self {
        OscillatorView {
            increment: phase_increment(frequency, self.table.len() as int, self.sample_rate),
            ..self
        }
    }

    /// The same oscillator, sounding.
    pub open spec fn started(self) -> Self {
        OscillatorView { playing: true, ..self }
    }

    /// The same oscillator, silent.
    pub open spec fn stopped(self) -> Self {
        OscillatorView { playing: false, ..self }
    }

    /// The table read at the phase; silence where the table is empty.
    pub open spec fn level(self) -> int {
        if self.table.len() == 0 {
            0
        } else {
            interpolate(self.table, self.phase)
        }
    }

    /// The sample the oscillator gives next: silence unless it is playing.
    pub open spec fn output(self) -> int {
        if self.playing {
            self.level()
        } else {
            0
        }
    }

    /// The oscillator after it has given a sample: a playing one has moved
    /// on by its increment and wrapped around the table, a silent one has
    /// not moved.
    pub open spec fn advanced(self) -> Self {
        if self.playing && self.table.len() > 0 {
            OscillatorView {
                phase: (self.phase + self.increment) % (self.table.len() * ONE),
                ..self
            }
        } else {
            self
        }
    }
}

/// On a normalized table every interpolated value lies between -1.0 and
/// 1.0.
pub proof fn lemma_interpolate_bounded(table: Seq<i32>, phase: int)
    requires
        normalized(table),
        0 <= phase < table.len() * ONE,
    ensures
        -ONE <= interpolate(table, phase) <= ONE,
{
    let len = table.len() as int;
    let slot = phase / (ONE as int);
    let weight = phase % (ONE as int);
    let next = (slot + 1) % len;
    let here = table[slot] as int;
    let there = table[next] as int;
    assert(0 <= next < len) by (nonlinear_arith)
        requires
            len > 0,
            next == (slot + 1) % len,
    ;
    assert(-(ONE * ONE) <= here * (ONE - weight) + there * weight <= ONE * ONE)
        by (nonlinear_arith)
        requires
            -ONE <= here <= ONE,
            -ONE <= there <= ONE,
            0 <= weight < ONE,
    ;
    lemma_div_toward_zero_bounded(here * (ONE - weight) + there * weight, ONE as int, ONE as int);
}

/// Interpolation never leaves the span of the two entries it reads, and on
/// an entry it gives that entry.
pub proof fn lemma_interpolate_between(table: Seq<i32>, phase: int)
    requires
        0 <= phase < table.len() * ONE,
    ensures
        ({
            let here = table[phase / (ONE as int)] as int;
            let there = table[(phase / (ONE as int) + 1) % (table.len() as int)] as int;
            &&& here <= there ==> here <= interpolate(table, phase) <= there
            &&& there <= here ==> there <= interpolate(table, phase) <= here
            &&& phase % (ONE as int) == 0 ==> interpolate(table, phase) == here
        }),
{
    let slot = phase / (ONE as int);
    let weight = phase % (ONE as int);
    let here = table[slot] as int;
    let there = table[(slot + 1) % (table.len() as int)] as int;
    let sum = here * (ONE - weight) + there * weight;
    assert(sum == here * ONE + (there - here) * weight) by (nonlinear_arith)
        requires
            sum == here * (ONE - weight) + there * weight,
    ;
    if here <= there {
        assert(0 <= (there - here) * weight <= (there - here) * ONE) by (nonlinear_arith)
            requires
                here <= there,
                0 <= weight < ONE,
        ;
        lemma_div_toward_zero_between(sum, ONE as int, here, there);
    }
    if there <= here {
        assert((there - here) * ONE <= (there - here) * weight <= 0) by (nonlinear_arith)
            requires
                there <= here,
                0 <= weight < ONE,
        ;
        lemma_div_toward_zero_between(sum, ONE as int, there, here);
    }
    if weight == 0 {
        assert((there - here) * weight == 0) by (nonlinear_arith)
            requires
                weight == 0,
        ;
        lemma_div_toward_zero_between(sum, ONE as int, here, here);
    }
}

/// The sample an oscillator gives next lies between -1.0 and 1.0.
pub proof fn lemma_output_bounded(oscillator: OscillatorView)
    requires
        oscillator.wf(),
    ensures
        -ONE <= oscillator.output() <= ONE,
{
    if oscillator.playing && oscillator.table.len() > 0 {
        lemma_interpolate_bounded(oscillator.table, oscillator.phase);
    }
}

/// Tuning an oscillator to any frequency an `i32` can hold leaves it well
/// formed.
pub proof fn lemma_tuned_wf(oscillator: OscillatorView, frequency: int)
    requires
        oscillator.wf(),
        i32::MIN <= frequency <= i32::MAX,
    ensures
        oscillator.tuned(frequency).wf(),
{
    let len = oscillator.table.len() as int;
    assert(-0x8000_0000 * 0xFFFF <= frequency * len <= 0x8000_0000 * 0xFFFF) by (nonlinear_arith)
        requires
            -0x8000_0000 <= frequency < 0x8000_0000,
            0 <= len <= 0xFFFF,
    ;
    lemma_div_toward_zero_bounded(
        frequency * len * ONE,
        100 * oscillator.sample_rate,
        INCREMENT_LIMIT - 1,
    );
}

/// The phase stays within the table when the oscillator moves on.
pub proof fn lemma_advanced_wf(oscillator: OscillatorView)
    requires
        oscillator.wf(),
    ensures
        oscillator.advanced().wf(),
{
    if oscillator.playing && oscillator.table.len() > 0 {
        lemma_mod_bound(oscillator.phase + oscillator.increment, oscillator.table.len() * ONE);
    }
}

/// One voice's sound source: a wavetable and the phase that walks through it.
pub struct WavetableOscillator {
    sample_rate: u32,
    wave_table: Wavetable,
    index: i64,
    index_increment: i64,
    is_playing: bool,
}

impl View for WavetableOscillator {
    type V = OscillatorView;

    closed spec fn view(&self) -> OscillatorView {
        OscillatorView {
            sample_rate: self.sample_rate as int,
            table: self.wave_table@,
            phase: self.index as int,
            increment: self.index_increment as int,
            playing: self.is_playing,
        }
    }
}

impl WavetableOscillator {
    /// What holds of every oscillator.
    #[verifier::type_invariant]
    pub open spec fn wf(&self) -> bool {
        self@.wf()
    }

    /// A silent oscillator at the start of `wave_table`.
    pub fn new(sample_rate: u32, wave_table: Wavetable) -> (oscillator: Self)
        requires
            sample_rate > 0,
        ensures
            oscillator@ == OscillatorView::fresh(sample_rate as int, wave_table@),
    {
        proof {
            use_type_invariant(&wave_table);
        }
        Self { sample_rate, wave_table, index: 0, index_increment: 0, is_playing: false }
    }

    /// Tunes the oscillator to `frequency`, given in hundredths of a hertz.
    /// Zero stops the phase and a negative frequency walks the table
    /// backwards.
    pub fn set_frequency(&mut self, frequency: i32)
        ensures
            final(self)@ == old(self)@.tuned(frequency as int),
    {
        proof {
            use_type_invariant(&*self);
        }
        let len: i64 = self.wave_table.len() as i64;
        let wide: i64 = frequency as i64;
        assert(-0x8000_0000 * 0xFFFF <= wide * len <= 0x8000_0000 * 0xFFFF) by (nonlinear_arith)
            requires
                -0x8000_0000 <= wide < 0x8000_0000,
                0 <= len <= 0xFFFF,
        ;
        let one: i64 = ONE as i64;
        assert(one == 0x1_0000);
        let numerator: i64 = wide * len * one;
        let denominator: i64 = 100 * (self.sample_rate as i64);
        proof {
            lemma_div_toward_zero_bounded(
                numerator as int,
                denominator as int,
                INCREMENT_LIMIT - 1,
            );
        }
        self.index_increment = numerator / denominator;
    }

    /// Gives the next sample and moves the phase on. A silent oscillator
    /// gives silence and does not move.
    pub fn get_sample(&mut self) -> (sample: i32)
        ensures
            sample == old(self)@.output(),
            final(self)@ == old(self)@.advanced(),
            !old(self)@.playing ==> sample == 0 && final(self)@ == old(self)@,
            -ONE <= sample <= ONE,
    {
        proof {
            use_type_invariant(&*self);
        }
        if !self.is_playing {
            return 0;
        }
        let len: usize = self.wave_table.len();
        if len == 0 {
            return 0;
        }
        let sample = self.lerp();
        let period: i64 = (len as i64) * (ONE as i64);
        self.index = wrap(self.index + self.index_increment, period);
        sample
    }

    /// Starts the oscillator. One that is playing is left as it is.
    pub fn note_on(&mut self)
        ensures
            final(self)@ == old(self)@.started(),
    {
        proof {
            use_type_invariant(&*self);
        }
        if self.is_playing {
            return ;
        }
        self.is_playing = true;
    }

    /// Silences the oscillator. One that is silent is left as it is.
    pub fn note_off(&mut self)
        ensures
            final(self)@ == old(self)@.stopped(),
    {
        proof {
            use_type_invariant(&*self);
        }
        if !self.is_playing {
            return ;
        }
        self.is_playing = false;
    }

    /// Starts a silent oscillator and silences a playing one.
    pub fn toggle(&mut self)
        ensures
            final(self)@ == (OscillatorView { playing: !old(self)@.playing, ..old(self)@ }),
    {
        proof {
            use_type_invariant(&*self);
        }
        self.is_playing = !self.is_playing;
    }

    /// The table read at the phase by linear interpolation.
    pub fn lerp(&self) -> (sample: i32)
        ensures
            sample == self@.level(),
            -ONE <= sample <= ONE,
    {
        proof {
            use_type_invariant(self);
        }
        let len: usize = self.wave_table.len();
        if len == 0 {
            return 0;
        }
        let one: i64 = ONE as i64;
        let slot: usize = (self.index / one) as usize;
        let weight: i64 = self.index % one;
        let next: usize = if slot + 1 == len {
            0
        } else {
            slot + 1
        };
        proof {
            if slot + 1 == len {
                lemma_mod_self_0(len as int);
            } else {
                lemma_small_mod((slot + 1) as nat, len as nat);
            }
            lemma_interpolate_bounded(self@.table, self@.phase);
        }
        let here: i64 = self.wave_table.sample(slot) as i64;
        let there: i64 = self.wave_table.sample(next) as i64;
        assert(-(ONE * ONE) <= here * (one - weight) + there * weight <= ONE * ONE
            && -(ONE * ONE) <= here * (one - weight) <= ONE * ONE
            && -(ONE * ONE) <= there * weight <= ONE * ONE) by (nonlinear_arith)
            requires
                -ONE <= here <= ONE,
                -ONE <= there <= ONE,
                0 <= weight < ONE,
                one == ONE,
        ;
        ((here * (one - weight) + there * weight) / one) as i32
    }

    /// Whether the oscillator sounds.
    pub fn is_playing(&self) -> (playing: bool)
        ensures
            playing == self@.playing,
    {
        self.is_playing
    }

    /// The phase, in fixed point.
    pub fn index(&self) -> (phase: i64)
        ensures
            phase == self@.phase,
    {
        self.index
    }

    /// What the phase moves by per sample, in fixed point.
    pub fn index_increment(&self) -> (increment: i64)
        ensures
            increment == self@.increment,
    {
        self.index_increment
    }
}

} // verus!
