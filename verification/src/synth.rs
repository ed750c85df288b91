//! The synthesizer as a whole: the voice pool, the wavetable in use, the
//! master volume, and what the control surface has set.
//!
//! Commands change it one at a time, and each pull of a sample mixes the
//! pool once and scales the mix by the volume.

use crate::control::{Action, Vec2};
use crate::fixed::ONE;
use crate::voice::{
    lemma_after_mix_wf, lemma_after_note_off_wf, lemma_after_note_on_wf,
    lemma_mean_output_bounded, PoolView, VoiceManager,
};
use crate::volume::{
    lemma_scaled_bounded, lemma_steps_on_grid, lowered, on_grid, raised, scaled, MasterVolume,
    VOLUME_FULL,
};
use crate::wavetable::{
    generate_wave_table, lemma_wave_table_normalized, wave_table, Waveform, Wavetable,
};
use vstd::prelude::*;

verus! {

/// The number of samples in every table the synthesizer generates.
pub const WAVE_TABLE_SIZE: u16 = 256;

/// Samples per second of the stream the synthesizer gives.
pub const SAMPLE_RATE: u32 = 44100;

/// The state of the synthesizer.
pub struct SynthView {
    /// The number of samples in a generated table.
    pub wave_table_size: u16,
    /// Samples per second.
    pub sample_rate: u32,
    /// The table in use.
    pub table: Seq<i32>,
    /// The voice pool.
    pub pool: PoolView,
    /// The master volume, in hundredths of full scale.
    pub volume: int,
    /// The size of the terminal.
    pub terminal_size: Vec2,
    /// Whether the user asked to leave.
    pub should_quit: bool,
}

impl SynthView {
    /// The synthesizer as it starts: a sine table, no voice, full volume.
    pub open spec fn initial() -> Self {
        SynthView {
            wave_table_size: WAVE_TABLE_SIZE,
            sample_rate: SAMPLE_RATE,
            table: wave_table(Waveform::Sine, WAVE_TABLE_SIZE as nat),
            pool: PoolView::empty(
                SAMPLE_RATE as int,
                wave_table(Waveform::Sine, WAVE_TABLE_SIZE as nat),
            ),
            volume: VOLUME_FULL as int,
            terminal_size: Vec2 { x: 10, y: 10 },
            should_quit: false,
        }
    }

    /// The pool is well formed and takes its sample rate and its table from
    /// the synthesizer, and the volume stands on its grid.
    pub open spec fn wf(self) -> bool {
        &&& self.pool.wf()
        &&& self.pool.sample_rate == self.sample_rate
        &&& self.pool.table == self.table
        &&& on_grid(self.volume)
    }

    /// The synthesizer after a command.
    pub open spec fn after(self, action: Action) -> Self {
        match action {
            Action::Quit => SynthView { should_quit: true, ..self },
            Action::ChangeWindowSize(size) => SynthView { terminal_size: size, ..self },
            Action::NoteOn(frequency, key) => SynthView {
                pool: self.pool.after_note_on(frequency as int, key),
                ..self
            },
            Action::NoteOff(key) => SynthView { pool: self.pool.after_note_off(key), ..self },
            Action::ChangeWavetable(waveform) => {
                let table = wave_table(waveform, self.wave_table_size as nat);
                SynthView { table, pool: self.pool.with_table(table), ..self }
            },
            Action::IncreaseVolume => SynthView { volume: raised(self.volume), ..self },
            Action::DecreaseVolume => SynthView { volume: lowered(self.volume), ..self },
            Action::Nothing => self,
        }
    }

    /// The sample the synthesizer gives next: the pool's mix at the master
    /// volume.
    pub open spec fn output(self) -> int {
        scaled(self.pool.mix(), self.volume)
    }

    /// The synthesizer after it gave a sample.
    pub open spec fn after_sample(self) -> Self {
        SynthView { pool: self.pool.after_mix(), ..self }
    }
}

/// The synthesizer starts well formed.
pub proof fn lemma_initial_wf()
    ensures
        SynthView::initial().wf(),
{
    lemma_wave_table_normalized(Waveform::Sine, WAVE_TABLE_SIZE as nat);
}

/// No command breaks a well-formed synthesizer.
pub proof fn lemma_after_wf(synth: SynthView, action: Action)
    requires
        synth.wf(),
    ensures
        synth.after(action).wf(),
{
    match action {
        Action::NoteOn(frequency, key) => {
            lemma_after_note_on_wf(synth.pool, frequency as int, key);
        },
        Action::NoteOff(key) => {
            lemma_after_note_off_wf(synth.pool, key);
        },
        Action::ChangeWavetable(waveform) => {
            lemma_wave_table_normalized(waveform, synth.wave_table_size as nat);
        },
        Action::IncreaseVolume => {
            lemma_steps_on_grid(synth.volume);
        },
        Action::DecreaseVolume => {
            lemma_steps_on_grid(synth.volume);
        },
        _ => {},
    }
}

/// Giving a sample leaves a well-formed synthesizer well formed, with only
/// held voices in its pool, and the sample lies between -1.0 and 1.0.
pub proof fn lemma_after_sample_wf(synth: SynthView)
    requires
        synth.wf(),
    ensures
        synth.after_sample().wf(),
        -ONE <= synth.output() <= ONE,
{
    lemma_after_mix_wf(synth.pool);
    lemma_mean_output_bounded(synth.pool.voices);
    lemma_scaled_bounded(synth.pool.mix(), synth.volume, ONE as int);
}

/// A waveform change reaches only the voices to come: every voice in the
/// pool stays as it is, on the table it started with.
pub proof fn lemma_change_of_table_keeps_voices(synth: SynthView, waveform: Waveform)
    ensures
        synth.after(Action::ChangeWavetable(waveform)).pool.voices == synth.pool.voices,
{
}

/// The whole synthesizer.
pub struct Synth {
    wave_table_size: u16,
    sample_rate: u32,
    wave_table: Wavetable,
    voice_manager: VoiceManager,
    master_volume: MasterVolume,
    terminal_size: Vec2,
    should_quit: bool,
}

impl View for Synth {
    type V = SynthView;

    closed spec fn view(&self) -> SynthView {
        SynthView {
            wave_table_size: self.wave_table_size,
            sample_rate: self.sample_rate,
            table: self.wave_table@,
            pool: self.voice_manager@,
            volume: self.master_volume@,
            terminal_size: self.terminal_size,
            should_quit: self.should_quit,
        }
    }
}

impl Synth {
    /// The synthesizer as it starts: 256-sample tables at 44100 samples per
    /// second, a sine table in use, no voice, full volume, not leaving.
    pub fn new() -> (synth: Self)
        ensures
            synth@ == SynthView::initial(),
    {
        let wave_table = generate_wave_table(Waveform::Sine, WAVE_TABLE_SIZE);
        let voice_manager = VoiceManager::new(SAMPLE_RATE, wave_table.clone());
        Synth {
            wave_table_size: WAVE_TABLE_SIZE,
            sample_rate: SAMPLE_RATE,
            wave_table,
            voice_manager,
            master_volume: MasterVolume::new(),
            terminal_size: Vec2 { x: 10, y: 10 },
            should_quit: false,
        }
    }

    /// Carries out one command.
    pub fn process_action(&mut self, action: Action)
        ensures
            final(self)@ == old(self)@.after(action),
    {
        match action {
            Action::Quit => {
                self.should_quit = true;
            },
            Action::ChangeWindowSize(size) => {
                self.terminal_size = size;
            },
            Action::NoteOn(frequency, key) => {
                self.voice_manager.note_on(frequency, key);
            },
            Action::NoteOff(key) => {
                self.voice_manager.note_off(key);
            },
            Action::ChangeWavetable(waveform) => {
                let wave_table = generate_wave_table(waveform, self.wave_table_size);
                self.voice_manager.set_wave_table(wave_table.clone());
                self.wave_table = wave_table;
            },
            Action::IncreaseVolume => {
                self.master_volume.increase();
            },
            Action::DecreaseVolume => {
                self.master_volume.decrease();
            },
            Action::Nothing => {},
        }
    }

    /// Gives the next sample of the stream: the pool's mix at the master
    /// volume.
    pub fn next_sample(&mut self) -> (sample: i32)
        ensures
            sample == old(self)@.output(),
            final(self)@ == old(self)@.after_sample(),
            -ONE <= sample <= ONE,
    {
        let volume = self.master_volume.percent();
        let mixed = self.voice_manager.mix_sample();
        proof {
            lemma_scaled_bounded(mixed as int, volume as int, ONE as int);
        }
        self.master_volume.apply(mixed)
    }

    /// Whether the user asked to leave.
    pub fn should_quit(&self) -> (quit: bool)
        ensures
            quit == self@.should_quit,
    {
        self.should_quit
    }

    /// The size of the terminal as last reported.
    pub fn terminal_size(&self) -> (size: Vec2)
        ensures
            size == self@.terminal_size,
    {
        self.terminal_size
    }

    /// Samples per second of the stream.
    pub fn sample_rate(&self) -> (rate: u32)
        ensures
            rate == self@.sample_rate,
    {
        self.sample_rate
    }

    /// The table in use.
    pub fn wave_table(&self) -> (table: &Wavetable)
        ensures
            table@ == self@.table,
    {
        &self.wave_table
    }

    /// The master volume, in hundredths of full scale.
    pub fn master_volume(&self) -> (percent: u32)
        ensures
            percent == self@.volume,
    {
        self.master_volume.percent()
    }

    /// The voice pool.
    pub fn voice_manager(&self) -> (pool: &VoiceManager)
        ensures
            pool@ == self@.pool,
    {
        &self.voice_manager
    }
}

} // verus!
