use synthrs::fixed::ONE;
use synthrs::oscillator::{WavetableOscillator, INCREMENT_LIMIT};
use synthrs::wavetable::{generate_wave_table, Waveform};

fn square_pair() -> WavetableOscillator {
    WavetableOscillator::new(44100, generate_wave_table(Waveform::Square, 2))
}

#[test]
fn a_new_oscillator_is_silent_at_the_start_of_the_table() {
    let oscillator = square_pair();
    assert!(!oscillator.is_playing());
    assert_eq!(oscillator.index(), 0);
    assert_eq!(oscillator.index_increment(), 0);
}

#[test]
fn a_silent_oscillator_gives_zero_and_does_not_move() {
    let mut oscillator = square_pair();
    oscillator.set_frequency(1102500);
    for _ in 0..5 {
        assert_eq!(oscillator.get_sample(), 0);
        assert_eq!(oscillator.index(), 0);
    }
}

#[test]
fn a_silenced_oscillator_gives_zero_whatever_its_phase() {
    let mut oscillator = square_pair();
    oscillator.set_frequency(1102500);
    oscillator.note_on();
    assert_eq!(oscillator.get_sample(), ONE);
    assert_eq!(oscillator.index(), 32768);
    oscillator.note_off();
    for _ in 0..3 {
        assert_eq!(oscillator.get_sample(), 0);
        assert_eq!(oscillator.index(), 32768);
    }
    oscillator.note_on();
    assert_eq!(oscillator.get_sample(), 0);
    assert_eq!(oscillator.index(), 65536);
    assert_eq!(oscillator.get_sample(), -ONE);
}

#[test]
fn half_steps_through_a_square_pair_cycle_every_four_samples() {
    let mut oscillator = square_pair();
    oscillator.set_frequency(1102500);
    assert_eq!(oscillator.index_increment(), ONE as i64 / 2);
    oscillator.note_on();
    for _ in 0..3 {
        assert_eq!(oscillator.get_sample(), ONE);
        assert_eq!(oscillator.get_sample(), 0);
        assert_eq!(oscillator.get_sample(), -ONE);
        assert_eq!(oscillator.get_sample(), 0);
        assert_eq!(oscillator.index(), 0);
    }
}

#[test]
fn the_increment_is_frequency_times_length_over_rate() {
    let mut oscillator =
        WavetableOscillator::new(44100, generate_wave_table(Waveform::Sine, 256));
    oscillator.set_frequency(26163);
    assert_eq!(oscillator.index_increment(), 99533);
    oscillator.set_frequency(44000);
    assert_eq!(oscillator.index_increment(), 167391);
    oscillator.set_frequency(-26163);
    assert_eq!(oscillator.index_increment(), -99533);
    oscillator.set_frequency(0);
    assert_eq!(oscillator.index_increment(), 0);
}

#[test]
fn the_largest_increment_is_below_the_limit() {
    let mut oscillator = WavetableOscillator::new(1, generate_wave_table(Waveform::Saw, 65535));
    oscillator.set_frequency(i32::MAX);
    assert_eq!(oscillator.index_increment(), 92232312950715187);
    assert!(oscillator.index_increment() < INCREMENT_LIMIT);
    oscillator.set_frequency(i32::MIN);
    assert_eq!(oscillator.index_increment(), -92232312993664204);
    assert!(oscillator.index_increment() > -INCREMENT_LIMIT);
    oscillator.note_on();
    for _ in 0..100 {
        let sample = oscillator.get_sample();
        assert!(-ONE <= sample && sample <= ONE);
        assert!(0 <= oscillator.index() && oscillator.index() < 65535 * 65536);
    }
}

#[test]
fn setting_the_frequency_does_not_move_the_phase() {
    let mut oscillator = square_pair();
    oscillator.set_frequency(1102500);
    oscillator.note_on();
    oscillator.get_sample();
    oscillator.set_frequency(2205000);
    assert_eq!(oscillator.index(), 32768);
    assert!(oscillator.is_playing());
    assert_eq!(oscillator.index_increment(), 65536);
}

#[test]
fn samples_between_entries_are_interpolated() {
    let mut oscillator = WavetableOscillator::new(44100, generate_wave_table(Waveform::Saw, 4));
    oscillator.set_frequency(551250);
    assert_eq!(oscillator.index_increment(), 32768);
    oscillator.note_on();
    let mut heard = Vec::new();
    for _ in 0..10 {
        heard.push(oscillator.get_sample());
    }
    assert_eq!(
        heard,
        vec![-65536, -49152, -32768, -16384, 0, 16384, 32768, -16384, -65536, -49152]
    );
}

#[test]
fn the_last_entry_is_interpolated_toward_the_first() {
    let mut oscillator = WavetableOscillator::new(44100, generate_wave_table(Waveform::Saw, 4));
    oscillator.set_frequency(551250);
    oscillator.note_on();
    for _ in 0..7 {
        oscillator.get_sample();
    }
    assert_eq!(oscillator.index(), 7 * 32768);
    assert_eq!(oscillator.lerp(), (32768 + -65536) / 2);
}

#[test]
fn lerp_reads_without_moving() {
    let mut oscillator = square_pair();
    oscillator.set_frequency(1102500);
    oscillator.note_on();
    assert_eq!(oscillator.lerp(), ONE);
    assert_eq!(oscillator.lerp(), ONE);
    assert_eq!(oscillator.index(), 0);
    oscillator.get_sample();
    assert_eq!(oscillator.lerp(), 0);
    oscillator.note_off();
    assert_eq!(oscillator.lerp(), 0);
    oscillator.get_sample();
    oscillator.note_on();
    oscillator.get_sample();
    assert_eq!(oscillator.lerp(), -ONE);
}

#[test]
fn a_negative_frequency_walks_the_table_backwards() {
    let mut oscillator = WavetableOscillator::new(44100, generate_wave_table(Waveform::Saw, 4));
    oscillator.set_frequency(-551250);
    assert_eq!(oscillator.index_increment(), -32768);
    oscillator.note_on();
    let mut heard = Vec::new();
    let mut phases = Vec::new();
    for _ in 0..6 {
        heard.push(oscillator.get_sample());
        phases.push(oscillator.index());
    }
    assert_eq!(heard, vec![-65536, -16384, 32768, 16384, 0, -16384]);
    assert_eq!(phases, vec![229376, 196608, 163840, 131072, 98304, 65536]);
}

#[test]
fn a_frequency_of_zero_holds_the_phase() {
    let mut oscillator = square_pair();
    oscillator.set_frequency(1102500);
    oscillator.note_on();
    oscillator.get_sample();
    oscillator.get_sample();
    oscillator.set_frequency(0);
    for _ in 0..4 {
        assert_eq!(oscillator.get_sample(), -ONE);
        assert_eq!(oscillator.index(), 65536);
    }
}

#[test]
fn the_phase_stays_within_the_table() {
    let mut oscillator =
        WavetableOscillator::new(44100, generate_wave_table(Waveform::Triangle, 7));
    oscillator.set_frequency(123456789);
    oscillator.note_on();
    for _ in 0..1000 {
        let sample = oscillator.get_sample();
        assert!(-ONE <= sample && sample <= ONE);
        assert!(0 <= oscillator.index() && oscillator.index() < 7 * 65536);
    }
}

#[test]
fn an_empty_table_is_quiet() {
    let mut oscillator = WavetableOscillator::new(44100, generate_wave_table(Waveform::Sine, 0));
    oscillator.set_frequency(44000);
    assert_eq!(oscillator.index_increment(), 0);
    oscillator.note_on();
    assert!(oscillator.is_playing());
    for _ in 0..3 {
        assert_eq!(oscillator.get_sample(), 0);
        assert_eq!(oscillator.lerp(), 0);
        assert_eq!(oscillator.index(), 0);
    }
}

#[test]
fn a_table_of_one_entry_gives_that_entry() {
    let mut oscillator = WavetableOscillator::new(44100, generate_wave_table(Waveform::Saw, 1));
    oscillator.set_frequency(1323000);
    oscillator.note_on();
    for _ in 0..5 {
        assert_eq!(oscillator.get_sample(), -ONE);
        assert!(oscillator.index() < 65536);
    }
}

#[test]
fn starting_an_oscillator_twice_is_starting_it_once() {
    let mut oscillator = square_pair();
    oscillator.set_frequency(1102500);
    oscillator.note_on();
    oscillator.get_sample();
    oscillator.note_on();
    assert!(oscillator.is_playing());
    assert_eq!(oscillator.index(), 32768);
    assert_eq!(oscillator.get_sample(), 0);
}

#[test]
fn silencing_an_oscillator_twice_is_silencing_it_once() {
    let mut oscillator = square_pair();
    oscillator.note_off();
    assert!(!oscillator.is_playing());
    oscillator.note_on();
    oscillator.note_off();
    oscillator.note_off();
    assert!(!oscillator.is_playing());
    assert_eq!(oscillator.index(), 0);
}

#[test]
fn toggle_flips_the_playing_flag() {
    let mut oscillator = square_pair();
    oscillator.toggle();
    assert!(oscillator.is_playing());
    oscillator.toggle();
    assert!(!oscillator.is_playing());
    assert_eq!(oscillator.index(), 0);
    assert_eq!(oscillator.index_increment(), 0);
}
