//! Voices and the pool that mixes them.
//!
//! A voice is one sounding note: an oscillator, the key that holds it, and
//! whether it is still held. The pool starts a voice when a key goes down,
//! marks it when the key comes up, and on every mix averages the voices
//! still held and drops the others.

use crate::fixed::{div_toward_zero, lemma_div_toward_zero_bounded, ONE};
use crate::oscillator::{
    lemma_advanced_wf, lemma_output_bounded, lemma_tuned_wf, OscillatorView, WavetableOscillator,
};
use crate::wavetable::{normalized, Wavetable};
use vstd::prelude::*;

verus! {

/// The state of a voice.
pub struct VoiceView {
    /// The oscillator that sounds the note.
    pub oscillator: OscillatorView,
    /// Whether the key is still held.
    pub active: bool,
    /// The key that started the note.
    pub key: char,
}

impl VoiceView {
    /// The oscillator is well formed and plays exactly as long as the key
    /// is held.
    pub open spec fn wf(self) -> bool {
        &&& self.oscillator.wf()
        &&& self.active == self.oscillator.playing
    }

    /// The voice a key starts: a playing oscillator at the start of the
    /// table, tuned to the frequency.
    pub open spec fn struck(sample_rate: int, table: Seq<i32>, frequency: int, key: char) -> Self {
        VoiceView {
            oscillator: OscillatorView::fresh(sample_rate, table).tuned(frequency).started(),
            active: true,
            key,
        }
    }

    /// The voice after its key came up.
    pub open spec fn released(self) -> Self {
        VoiceView { oscillator: self.oscillator.stopped(), active: false, ..self }
    }

    /// The voice after it gave a sample.
    pub open spec fn stepped(self) -> Self {
        VoiceView { oscillator: self.oscillator.advanced(), ..self }
    }
}

/// The voices still held, in their order.
pub open spec fn live(voices: Seq<VoiceView>) -> Seq<VoiceView> {
    voices.filter(|voice: VoiceView| voice.active)
}

/// The voices still held by `key`, in their order.
pub open spec fn held(voices: Seq<VoiceView>, key: char) -> Seq<VoiceView> {
    voices.filter(|voice: VoiceView| voice.active && voice.key == key)
}

/// Whether `key` holds a voice.
pub open spec fn holds(voices: Seq<VoiceView>, key: char) -> bool {
    exists|i: int| 0 <= i < voices.len() && #[trigger] voices[i].active && voices[i].key == key
}

/// No key holds two voices.
pub open spec fn one_voice_per_key(voices: Seq<VoiceView>) -> bool {
    forall|i: int, j: int|
        0 <= i < j < voices.len() && #[trigger] voices[i].active && #[trigger] voices[j].active
            ==> voices[i].key != voices[j].key
}

/// Every voice is well formed.
pub open spec fn all_wf(voices: Seq<VoiceView>) -> bool {
    forall|i: int| 0 <= i < voices.len() ==> #[trigger] voices[i].wf()
}

/// The sum of the samples that the voices give next.
pub open spec fn total_output(voices: Seq<VoiceView>) -> int
    decreases voices.len(),
{
    if voices.len() == 0 {
        0
    } else {
        total_output(voices.drop_last()) + voices.last().oscillator.output()
    }
}

/// The mean of the samples that the held voices give next, rounded toward
/// zero; silence when no voice is held.
pub open spec fn mean_output(voices: Seq<VoiceView>) -> int {
    let sounding = live(voices);
    if sounding.len() > 0 {
        div_toward_zero(total_output(sounding), sounding.len() as int)
    } else {
        0
    }
}

/// The voices after a mix: those still held, each moved on by one sample.
pub open spec fn survivors(voices: Seq<VoiceView>) -> Seq<VoiceView> {
    live(voices).map_values(|voice: VoiceView| voice.stepped())
}

/// The voices after `key` came up: every voice of that key is released.
pub open spec fn released_all(voices: Seq<VoiceView>, key: char) -> Seq<VoiceView> {
    voices.map_values(
        |voice: VoiceView|
            if voice.key == key {
                voice.released()
            } else {
                voice
            },
    )
}

/// The state of a voice pool.
pub struct PoolView {
    /// The voices, oldest first.
    pub voices: Seq<VoiceView>,
    /// Samples per second, which new voices inherit.
    pub sample_rate: int,
    /// The table that new voices play.
    pub table: Seq<i32>,
}

impl PoolView {
    /// Every voice is well formed, no key holds two voices, and the sample
    /// rate and the table are such as a new voice can take.
    pub open spec fn wf(self) -> bool {
        &&& 0 < self.sample_rate <= u32::MAX
        &&& normalized(self.table)
        &&& all_wf(self.voices)
        &&& one_voice_per_key(self.voices)
    }

    /// An empty pool.
    pub open spec fn empty(sample_rate: int, table: Seq<i32>) -> Self {
        PoolView { voices: Seq::empty(), sample_rate, table }
    }

    /// The pool after `key` went down: unchanged if the key already holds a
    /// voice, else one voice longer.
    pub open spec fn after_note_on(self, frequency: int, key: char) -> Self {
        if holds(self.voices, key) {
            self
        } else {
            PoolView {
                voices: self.voices.push(
                    VoiceView::struck(self.sample_rate, self.table, frequency, key),
                ),
                ..self
            }
        }
    }

    /// The pool after `key` came up.
    pub open spec fn after_note_off(self, key: char) -> Self {
        PoolView { voices: released_all(self.voices, key), ..self }
    }

    /// The sample the pool gives next.
    pub open spec fn mix(self) -> int {
        mean_output(self.voices)
    }

    /// The pool after it gave a sample.
    pub open spec fn after_mix(self) -> Self {
        PoolView { voices: survivors(self.voices), ..self }
    }

    /// The pool with another table for the voices to come.
    pub open spec fn with_table(self, table: Seq<i32>) -> Self {
        PoolView { table, ..self }
    }
}

/// Appending a voice appends it to the held voices if it is held.
proof fn lemma_live_push(voices: Seq<VoiceView>, voice: VoiceView)
    ensures
        live(voices.push(voice)) == if voice.active {
            live(voices).push(voice)
        } else {
            live(voices)
        },
{
    reveal(Seq::filter);
    assert(voices.push(voice).drop_last() =~= voices);
}

/// Appending a voice adds its sample to the sum.
proof fn lemma_total_output_push(voices: Seq<VoiceView>, voice: VoiceView)
    ensures
        total_output(voices.push(voice)) == total_output(voices) + voice.oscillator.output(),
{
    assert(voices.push(voice).drop_last() =~= voices);
}

/// Every held voice is active and one of the pool's voices.
proof fn lemma_live_members(voices: Seq<VoiceView>)
    ensures
        live(voices).len() <= voices.len(),
        forall|i: int|
            0 <= i < live(voices).len() ==> (#[trigger] live(voices)[i]).active && voices.contains(
                live(voices)[i],
            ),
    decreases voices.len(),
{
    reveal(Seq::filter);
    if voices.len() > 0 {
        let init = voices.drop_last();
        lemma_live_members(init);
        assert forall|i: int| 0 <= i < live(voices).len() implies (#[trigger] live(
            voices,
        )[i]).active && voices.contains(live(voices)[i]) by {
            if i < live(init).len() {
                let found = choose|k: int| 0 <= k < init.len() && init[k] == live(init)[i];
                assert(voices[found] == live(voices)[i]);
            } else {
                assert(voices[voices.len() - 1] == live(voices)[i]);
            }
        }
    }
}

/// The sum of the next samples of `n` voices is within `n` times full scale.
proof fn lemma_total_output_bounded(voices: Seq<VoiceView>)
    requires
        all_wf(voices),
    ensures
        -(voices.len() * ONE) <= total_output(voices) <= voices.len() * ONE,
    decreases voices.len(),
{
    if voices.len() > 0 {
        lemma_total_output_bounded(voices.drop_last());
        assert(voices.last().wf());
        lemma_output_bounded(voices.last().oscillator);
    }
}

/// The mix of well-formed voices lies between -1.0 and 1.0: it is a mean,
/// so it does not grow with the number of voices.
pub proof fn lemma_mean_output_bounded(voices: Seq<VoiceView>)
    requires
        all_wf(voices),
    ensures
        -ONE <= mean_output(voices) <= ONE,
{
    let sounding = live(voices);
    lemma_live_members(voices);
    if sounding.len() > 0 {
        assert(all_wf(sounding)) by {
            assert forall|i: int| 0 <= i < sounding.len() implies (#[trigger] sounding[i]).wf() by {
                let found = choose|k: int| 0 <= k < voices.len() && voices[k] == sounding[i];
                assert(voices[found].wf());
            }
        }
        lemma_total_output_bounded(sounding);
        assert(sounding.len() * ONE == ONE * sounding.len()) by (nonlinear_arith);
        lemma_div_toward_zero_bounded(total_output(sounding), sounding.len() as int, ONE as int);
    }
}

/// Among well-formed voices of which no key holds two, the held ones keep
/// both properties.
proof fn lemma_live_wf(voices: Seq<VoiceView>)
    requires
        all_wf(voices),
        one_voice_per_key(voices),
    ensures
        all_wf(live(voices)),
        one_voice_per_key(live(voices)),
    decreases voices.len(),
{
    reveal(Seq::filter);
    if voices.len() > 0 {
        let init = voices.drop_last();
        let last = voices.last();
        assert(all_wf(init)) by {
            assert forall|i: int| 0 <= i < init.len() implies (#[trigger] init[i]).wf() by {
                assert(voices[i].wf());
            }
        }
        assert(one_voice_per_key(init)) by {
            assert forall|i: int, j: int|
                0 <= i < j < init.len() && #[trigger] init[i].active && #[trigger] init[j].active
                implies init[i].key != init[j].key by {
                assert(voices[i].active && voices[j].active);
            }
        }
        lemma_live_wf(init);
        lemma_live_members(init);
        assert(last.wf());
        if last.active {
            let kept = live(voices);
            assert(kept == live(init).push(last));
            assert forall|i: int, j: int|
                0 <= i < j < kept.len() && #[trigger] kept[i].active && #[trigger] kept[j].active
                implies kept[i].key != kept[j].key by {
                if j < live(init).len() {
                    assert(live(init)[i].active && live(init)[j].active);
                } else {
                    let found = choose|k: int| 0 <= k < init.len() && init[k] == live(init)[i];
                    assert(voices[found].active && voices[voices.len() - 1].active);
                }
            }
        }
    }
}

/// A well-formed pool is well formed after a key went down.
pub proof fn lemma_after_note_on_wf(pool: PoolView, frequency: int, key: char)
    requires
        pool.wf(),
        i32::MIN <= frequency <= i32::MAX,
    ensures
        pool.after_note_on(frequency, key).wf(),
{
    if !holds(pool.voices, key) {
        let voice = VoiceView::struck(pool.sample_rate, pool.table, frequency, key);
        let after = pool.voices.push(voice);
        lemma_tuned_wf(OscillatorView::fresh(pool.sample_rate, pool.table), frequency);
        assert forall|i: int| 0 <= i < after.len() implies (#[trigger] after[i]).wf() by {
            if i < pool.voices.len() {
                assert(pool.voices[i].wf());
            }
        }
        assert forall|i: int, j: int|
            0 <= i < j < after.len() && #[trigger] after[i].active && #[trigger] after[j].active
            implies after[i].key != after[j].key by {
            if j < pool.voices.len() {
                assert(pool.voices[i].active && pool.voices[j].active);
            } else {
                assert(pool.voices[i].active);
            }
        }
    }
}

/// A well-formed pool is well formed after a key came up.
pub proof fn lemma_after_note_off_wf(pool: PoolView, key: char)
    requires
        pool.wf(),
    ensures
        pool.after_note_off(key).wf(),
{
    let after = released_all(pool.voices, key);
    assert forall|i: int| 0 <= i < after.len() implies (#[trigger] after[i]).wf() by {
        assert(pool.voices[i].wf());
    }
    assert forall|i: int, j: int|
        0 <= i < j < after.len() && #[trigger] after[i].active && #[trigger] after[j].active
        implies after[i].key != after[j].key by {
        assert(pool.voices[i].active && pool.voices[j].active);
    }
}

/// A well-formed pool is well formed after a mix, and every voice left in
/// it is held.
pub proof fn lemma_after_mix_wf(pool: PoolView)
    requires
        pool.wf(),
    ensures
        pool.after_mix().wf(),
        forall|i: int|
            0 <= i < pool.after_mix().voices.len() ==> (#[trigger] pool.after_mix().voices[i]).active,
{
    let kept = live(pool.voices);
    let after = survivors(pool.voices);
    lemma_live_wf(pool.voices);
    lemma_live_members(pool.voices);
    assert forall|i: int| 0 <= i < after.len() implies (#[trigger] after[i]).wf()
        && after[i].active by {
        assert(kept[i].wf());
        lemma_advanced_wf(kept[i].oscillator);
    }
    assert forall|i: int, j: int|
        0 <= i < j < after.len() && #[trigger] after[i].active && #[trigger] after[j].active
        implies after[i].key != after[j].key by {
        assert(kept[i].active && kept[j].active);
    }
}

/// Releasing a key that holds no voice changes nothing.
pub proof fn lemma_note_off_idle(pool: PoolView, key: char)
    requires
        pool.wf(),
        !holds(pool.voices, key),
    ensures
        pool.after_note_off(key) == pool,
{
    let after = released_all(pool.voices, key);
    assert forall|i: int| 0 <= i < after.len() implies after[i] == pool.voices[i] by {
        let voice = pool.voices[i];
        assert(voice.wf());
        if voice.key == key {
            assert(!voice.active);
            assert(voice.oscillator.stopped() == voice.oscillator);
        }
    }
    assert(after =~= pool.voices);
}

/// Once a key came up, the next mix leaves no voice of that key in the pool.
pub proof fn lemma_released_key_is_pruned(pool: PoolView, key: char)
    ensures
        forall|i: int|
            0 <= i < pool.after_note_off(key).after_mix().voices.len() ==> (
            #[trigger] pool.after_note_off(key).after_mix().voices[i]).key != key,
{
    let released = released_all(pool.voices, key);
    let kept = live(released);
    let after = pool.after_note_off(key).after_mix().voices;
    lemma_live_members(released);
    assert forall|i: int| 0 <= i < after.len() implies (#[trigger] after[i]).key != key by {
        assert(kept[i].active);
        let found = choose|k: int| 0 <= k < released.len() && released[k] == kept[i];
        assert(released[found].active);
    }
}

/// Among voices of which no key holds two, a key that holds a voice holds
/// exactly one, and a key that holds none holds none.
pub proof fn lemma_held_count(voices: Seq<VoiceView>, key: char)
    requires
        one_voice_per_key(voices),
    ensures
        held(voices, key).len() == if holds(voices, key) {
            1nat
        } else {
            0nat
        },
    decreases voices.len(),
{
    reveal(Seq::filter);
    if voices.len() > 0 {
        let init = voices.drop_last();
        let last = voices.last();
        assert(one_voice_per_key(init)) by {
            assert forall|i: int, j: int|
                0 <= i < j < init.len() && #[trigger] init[i].active && #[trigger] init[j].active
                implies init[i].key != init[j].key by {
                assert(voices[i].active && voices[j].active);
            }
        }
        lemma_held_count(init, key);
        if last.active && last.key == key {
            assert(voices[voices.len() - 1].active);
            if holds(init, key) {
                let found = choose|i: int|
                    0 <= i < init.len() && #[trigger] init[i].active && init[i].key == key;
                assert(voices[found].active);
            }
        } else {
            if holds(voices, key) {
                let found = choose|i: int|
                    0 <= i < voices.len() && #[trigger] voices[i].active && voices[i].key == key;
                assert(init[found].active);
            }
            if holds(init, key) {
                let found = choose|i: int|
                    0 <= i < init.len() && #[trigger] init[i].active && init[i].key == key;
                assert(voices[found].active);
            }
        }
    }
}

/// After a key went down it holds exactly one voice, however often it went
/// down before: a second press without a release between changes nothing.
pub proof fn lemma_note_on_holds_one(pool: PoolView, frequency: int, again: int, key: char)
    requires
        pool.wf(),
        i32::MIN <= frequency <= i32::MAX,
    ensures
        held(pool.after_note_on(frequency, key).voices, key).len() == 1,
        pool.after_note_on(frequency, key).after_note_on(again, key) == pool.after_note_on(
            frequency,
            key,
        ),
{
    let after = pool.after_note_on(frequency, key);
    lemma_after_note_on_wf(pool, frequency, key);
    if !holds(pool.voices, key) {
        assert(after.voices[after.voices.len() - 1].active);
    }
    assert(holds(after.voices, key));
    lemma_held_count(after.voices, key);
}

/// One sounding note: an oscillator, the key that started it, and whether
/// that key is still held.
struct Voice {
    oscillator: WavetableOscillator,
    active: bool,
    key: char,
}

impl View for Voice {
    type V = VoiceView;

    closed spec fn view(&self) -> VoiceView {
        VoiceView { oscillator: self.oscillator@, active: self.active, key: self.key }
    }
}

impl Voice {
    /// The voice that `key` starts at `frequency`.
    fn strike(sample_rate: u32, wave_table: Wavetable, frequency: i32, key: char) -> (voice: Self)
        requires
            sample_rate > 0,
        ensures
            voice@ == VoiceView::struck(sample_rate as int, wave_table@, frequency as int, key),
    {
        let mut oscillator = WavetableOscillator::new(sample_rate, wave_table);
        oscillator.set_frequency(frequency);
        oscillator.note_on();
        Voice { oscillator, active: true, key }
    }

    /// Marks the voice as no longer held and silences it.
    fn release(&mut self)
        ensures
            final(self)@ == old(self)@.released(),
    {
        self.active = false;
        self.oscillator.note_off();
    }

    /// Gives the voice's next sample.
    fn step(&mut self) -> (sample: i32)
        ensures
            sample == old(self)@.oscillator.output(),
            final(self)@ == old(self)@.stepped(),
    {
        self.oscillator.get_sample()
    }
}

/// The states of the voices in a vector.
spec fn voice_views(voices: Seq<Voice>) -> Seq<VoiceView> {
    voices.map_values(|voice: Voice| voice@)
}

/// Whether `key` holds one of the voices.
fn any_held(voices: &Vec<Voice>, key: char) -> (found: bool)
    ensures
        found == holds(voice_views(voices@), key),
{
    let mut at: usize = 0;
    while at < voices.len()
        invariant
            at <= voices.len(),
            forall|i: int|
                0 <= i < at ==> !(#[trigger] voice_views(voices@)[i].active && voice_views(
                    voices@,
                )[i].key == key),
        decreases voices.len() - at,
    {
        if voices[at].active && voices[at].key == key {
            assert(voice_views(voices@)[at as int].active);
            return true;
        }
        at = at + 1;
    }
    false
}

/// Releases every voice of `key`.
fn release_all(voices: &mut Vec<Voice>, key: char)
    ensures
        voice_views(final(voices)@) == released_all(voice_views(old(voices)@), key),
{
    let ghost before = voice_views(voices@);
    let mut at: usize = 0;
    while at < voices.len()
        invariant
            at <= voices.len(),
            voices.len() == before.len(),
            forall|i: int| 0 <= i < at ==> voice_views(voices@)[i] == released_all(before, key)[i],
            forall|i: int| at <= i < voices.len() ==> voice_views(voices@)[i] == before[i],
        decreases voices.len() - at,
    {
        if voices[at].key == key {
            voices[at].release();
        }
        at = at + 1;
    }
    assert(voice_views(voices@) =~= released_all(before, key));
}

/// Averages the next samples of the held voices and keeps only those
/// voices, each moved on by one sample.
fn mix_voices(voices: &mut Vec<Voice>) -> (mixed: i32)
    requires
        all_wf(voice_views(old(voices)@)),
    ensures
        mixed == mean_output(voice_views(old(voices)@)),
        voice_views(final(voices)@) == survivors(voice_views(old(voices)@)),
{
    let ghost before = voice_views(voices@);
    let ghost mut done: int = 0;
    let mut total: i128 = 0;
    let mut count: usize = 0;
    proof {
        assert(before.take(0) =~= Seq::<VoiceView>::empty());
        reveal(Seq::filter);
        assert(voice_views(voices@) =~= survivors(before.take(0)) + before.skip(0));
    }
    while count < voices.len()
        invariant
            all_wf(before),
            0 <= done <= before.len(),
            count <= voices.len(),
            voices.len() - count == before.len() - done,
            voice_views(voices@) =~= survivors(before.take(done)) + before.skip(done),
            count == live(before.take(done)).len(),
            total == total_output(live(before.take(done))),
            -(count * ONE) <= total <= count * ONE,
        decreases before.len() - done,
    {
        let ghost seen = before.take(done);
        let ghost next = before[done];
        proof {
            assert(before.take(done + 1) =~= seen.push(next));
            lemma_live_push(seen, next);
            lemma_total_output_push(live(seen), next);
            assert(voice_views(voices@)[count as int] == next);
            assert(next.wf());
            lemma_output_bounded(next.oscillator);
        }
        let ghost prior = voice_views(voices@);
        if voices[count].active {
            let sample = voices[count].step();
            proof {
                assert(voice_views(voices@) =~= prior.update(count as int, next.stepped()));
                assert(survivors(seen.push(next)) =~= survivors(seen).push(next.stepped()));
                assert(voice_views(voices@) =~= survivors(seen.push(next)) + before.skip(done + 1));
            }
            total = total + sample as i128;
            count = count + 1;
        } else {
            voices.remove(count);
            proof {
                assert(voice_views(voices@) =~= prior.remove(count as int));
                assert(voice_views(voices@) =~= survivors(seen.push(next)) + before.skip(done + 1));
            }
        }
        proof {
            done = done + 1;
        }
    }
    proof {
        assert(before.take(done) =~= before);
        assert(voice_views(voices@) =~= survivors(before));
    }
    if count > 0 {
        proof {
            assert(count * ONE == ONE * count) by (nonlinear_arith);
            lemma_div_toward_zero_bounded(total as int, count as int, ONE as int);
        }
        (total / (count as i128)) as i32
    } else {
        0
    }
}

/// The pool of sounding voices, with the sample rate and the wavetable that
/// new voices inherit.
pub struct VoiceManager {
    voices: Vec<Voice>,
    sample_rate: u32,
    wave_table: Wavetable,
}

impl View for VoiceManager {
    type V = PoolView;

    closed spec fn view(&self) -> PoolView {
        PoolView {
            voices: voice_views(self.voices@),
            sample_rate: self.sample_rate as int,
            table: self.wave_table@,
        }
    }
}

// The pool is well formed whenever it can be seen, also while a method runs.
// So a method that changes the voices takes the vector out of the pool,
// changes it, and puts it back changed.
impl VoiceManager {
    /// What holds of every pool.
    #[verifier::type_invariant]
    pub open spec fn wf(&self) -> bool {
        self@.wf()
    }

    /// An empty pool whose voices will play `wave_table`.
    pub fn new(sample_rate: u32, wave_table: Wavetable) -> (pool: Self)
        requires
            sample_rate > 0,
        ensures
            pool@ == PoolView::empty(sample_rate as int, wave_table@),
    {
        proof {
            use_type_invariant(&wave_table);
        }
        let pool = Self { voices: Vec::new(), sample_rate, wave_table };
        assert(pool@.voices =~= Seq::empty());
        pool
    }

    /// A key went down. If it already holds a voice nothing happens;
    /// otherwise a voice on the pool's current table starts at `frequency`,
    /// given in hundredths of a hertz. Either way the key then holds exactly
    /// one voice.
    pub fn note_on(&mut self, frequency: i32, key: char)
        ensures
            final(self)@ == old(self)@.after_note_on(frequency as int, key),
            held(final(self)@.voices, key).len() == 1,
    {
        proof {
            use_type_invariant(&*self);
            lemma_after_note_on_wf(self@, frequency as int, key);
            lemma_note_on_holds_one(self@, frequency as int, frequency as int, key);
        }
        if any_held(&self.voices, key) {
            return ;
        }
        let voice = Voice::strike(self.sample_rate, self.wave_table.clone(), frequency, key);
        let ghost before = voice_views(self.voices@);
        let mut voices: Vec<Voice> = Vec::new();
        assert(voice_views(voices@) =~= Seq::empty());
        core::mem::swap(&mut self.voices, &mut voices);
        voices.push(voice);
        assert(voice_views(voices@) =~= before.push(voice@));
        core::mem::swap(&mut self.voices, &mut voices);
    }

    /// A key came up: every voice it holds is released, to be dropped by
    /// the next mix. A key that holds no voice changes nothing.
    pub fn note_off(&mut self, key: char)
        ensures
            final(self)@ == old(self)@.after_note_off(key),
            !holds(old(self)@.voices, key) ==> final(self)@ == old(self)@,
    {
        proof {
            use_type_invariant(&*self);
            lemma_after_note_off_wf(self@, key);
            if !holds(self@.voices, key) {
                lemma_note_off_idle(self@, key);
            }
        }
        let mut voices: Vec<Voice> = Vec::new();
        assert(voice_views(voices@) =~= Seq::empty());
        core::mem::swap(&mut self.voices, &mut voices);
        release_all(&mut voices, key);
        core::mem::swap(&mut self.voices, &mut voices);
    }

    /// Gives the next sample of the pool: the mean of the next samples of
    /// the held voices, silence if there is none. The released voices are
    /// dropped, so that every voice left is held.
    pub fn mix_sample(&mut self) -> (mixed: i32)
        ensures
            mixed == old(self)@.mix(),
            final(self)@ == old(self)@.after_mix(),
            -ONE <= mixed <= ONE,
            forall|i: int|
                0 <= i < final(self)@.voices.len() ==> (#[trigger] final(self)@.voices[i]).active,
    {
        proof {
            use_type_invariant(&*self);
            lemma_after_mix_wf(self@);
            lemma_mean_output_bounded(self@.voices);
        }
        let mut voices: Vec<Voice> = Vec::new();
        assert(voice_views(voices@) =~= Seq::empty());
        core::mem::swap(&mut self.voices, &mut voices);
        let mixed = mix_voices(&mut voices);
        core::mem::swap(&mut self.voices, &mut voices);
        mixed
    }

    /// Gives the voices to come another table. The voices that sound keep
    /// the table they started on.
    pub fn set_wave_table(&mut self, wave_table: Wavetable)
        ensures
            final(self)@ == old(self)@.with_table(wave_table@),
    {
        proof {
            use_type_invariant(&*self);
            use_type_invariant(&wave_table);
        }
        self.wave_table = wave_table;
    }

    /// Whether `key` holds a voice.
    pub fn is_active(&self, key: char) -> (active: bool)
        ensures
            active == holds(self@.voices, key),
    {
        any_held(&self.voices, key)
    }

    /// The number of voices in the pool, released ones included.
    pub fn voice_count(&self) -> (count: usize)
        ensures
            count == self@.voices.len(),
    {
        self.voices.len()
    }
}


} // verus!
