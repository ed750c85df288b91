use synthrs::fixed::ONE;
use synthrs::wavetable::{generate_wave_table, Waveform, Wavetable, MAX_TABLE_LEN};

fn samples(table: &Wavetable) -> Vec<i32> {
    let mut out = Vec::new();
    for n in 0..table.len() {
        out.push(table.sample(n));
    }
    out
}

fn shapes() -> Vec<Waveform> {
    vec![Waveform::Sine, Waveform::Saw, Waveform::Square, Waveform::Triangle]
}

#[test]
fn square_of_two_samples_is_one_then_minus_one() {
    let table = generate_wave_table(Waveform::Square, 2);
    assert_eq!(samples(&table), vec![ONE, -ONE]);
}

#[test]
fn every_shape_gives_as_many_samples_as_asked_for() {
    for size in [0u16, 1, 2, 3, 7, 256, 1000, 65535] {
        for waveform in shapes() {
            assert_eq!(generate_wave_table(waveform, size).len(), size as usize);
        }
    }
}

#[test]
fn every_sample_of_every_shape_is_within_full_scale() {
    for size in [1u16, 2, 3, 5, 7, 64, 255, 256, 257, 4096, 65535] {
        for waveform in shapes() {
            let table = generate_wave_table(waveform, size);
            for n in 0..table.len() {
                let sample = table.sample(n);
                assert!(-ONE <= sample && sample <= ONE, "{:?} {} {}", waveform, size, n);
            }
        }
    }
}

#[test]
fn no_table_is_longer_than_the_limit() {
    assert_eq!(MAX_TABLE_LEN, 65535);
    assert_eq!(generate_wave_table(Waveform::Saw, u16::MAX).len(), MAX_TABLE_LEN);
}

#[test]
fn a_table_of_no_samples_is_empty() {
    for waveform in shapes() {
        assert_eq!(generate_wave_table(waveform, 0).len(), 0);
    }
}

#[test]
fn saw_rises_from_minus_one() {
    assert_eq!(
        samples(&generate_wave_table(Waveform::Saw, 8)),
        vec![-65536, -49152, -32768, -16384, 0, 16384, 32768, 49152]
    );
    assert_eq!(samples(&generate_wave_table(Waveform::Saw, 1)), vec![-65536]);
}

#[test]
fn saw_rounds_toward_zero() {
    assert_eq!(samples(&generate_wave_table(Waveform::Saw, 3)), vec![-65536, -21845, 21845]);
    assert_eq!(
        samples(&generate_wave_table(Waveform::Saw, 6)),
        vec![-65536, -43690, -21845, 0, 21845, 43690]
    );
}

#[test]
fn square_of_odd_size_is_high_while_below_the_half() {
    assert_eq!(samples(&generate_wave_table(Waveform::Square, 3)), vec![65536, 65536, -65536]);
    assert_eq!(
        samples(&generate_wave_table(Waveform::Square, 5)),
        vec![65536, 65536, 65536, -65536, -65536]
    );
    assert_eq!(samples(&generate_wave_table(Waveform::Square, 1)), vec![65536]);
}

#[test]
fn square_of_even_size_is_half_high_half_low() {
    assert_eq!(
        samples(&generate_wave_table(Waveform::Square, 6)),
        vec![65536, 65536, 65536, -65536, -65536, -65536]
    );
}

#[test]
fn triangle_falls_to_the_middle_and_rises_again() {
    assert_eq!(
        samples(&generate_wave_table(Waveform::Triangle, 8)),
        vec![65536, 32768, 0, -32768, -65536, -32768, 0, 32768]
    );
    assert_eq!(
        samples(&generate_wave_table(Waveform::Triangle, 5)),
        vec![65536, 13107, -39321, -39321, 13107]
    );
}

#[test]
fn sine_meets_the_quarters_of_the_period() {
    assert_eq!(samples(&generate_wave_table(Waveform::Sine, 4)), vec![0, 65536, 0, -65536]);
    let table = generate_wave_table(Waveform::Sine, 256);
    assert_eq!(table.sample(0), 0);
    assert_eq!(table.sample(64), 65536);
    assert_eq!(table.sample(128), 0);
    assert_eq!(table.sample(192), -65536);
}

#[test]
fn sine_has_the_values_of_the_sine_on_the_grid() {
    assert_eq!(
        samples(&generate_wave_table(Waveform::Sine, 8)),
        vec![0, 46341, 65536, 46341, 0, -46341, -65536, -46341]
    );
    assert_eq!(
        samples(&generate_wave_table(Waveform::Sine, 12)),
        vec![0, 32768, 56756, 65536, 56756, 32768, 0, -32768, -56756, -65536, -56756, -32768]
    );
    assert_eq!(
        samples(&generate_wave_table(Waveform::Sine, 5)),
        vec![0, 62328, 38521, -38521, -62328]
    );
    assert_eq!(samples(&generate_wave_table(Waveform::Sine, 3)), vec![0, 56756, -56756]);
    assert_eq!(samples(&generate_wave_table(Waveform::Sine, 2)), vec![0, 0]);
    assert_eq!(samples(&generate_wave_table(Waveform::Sine, 1)), vec![0]);
    let table = generate_wave_table(Waveform::Sine, 256);
    assert_eq!(table.sample(1), 1608);
    assert_eq!(table.sample(32), 46341);
    assert_eq!(table.sample(100), 41576);
    assert_eq!(table.sample(129), -1608);
    assert_eq!(table.sample(255), -1608);
}

#[test]
fn sine_second_half_is_the_first_half_negated() {
    let table = generate_wave_table(Waveform::Sine, 256);
    for n in 0..128 {
        assert_eq!(table.sample(n + 128), -table.sample(n));
        assert_eq!(table.sample(128 - n), table.sample(n));
    }
}

#[test]
fn sine_stays_within_one_unit_of_the_true_sine() {
    for size in [1u16, 2, 3, 5, 7, 16, 255, 256, 257, 1000, 4096, 12345, 40000, 65535] {
        let table = generate_wave_table(Waveform::Sine, size);
        for n in 0..table.len() {
            let exact = ONE as f64 * (2.0 * std::f64::consts::PI * n as f64 / size as f64).sin();
            assert!((table.sample(n) as f64 - exact).abs() <= 1.0, "{} {}", size, n);
        }
    }
}

#[test]
fn sine_of_the_usual_size_is_the_true_sine_rounded_to_the_grid() {
    let table = generate_wave_table(Waveform::Sine, 256);
    for n in 0..256 {
        let exact = ONE as f64 * (2.0 * std::f64::consts::PI * n as f64 / 256.0).sin();
        assert_eq!(table.sample(n), exact.round() as i32, "{}", n);
    }
}

#[test]
fn saw_and_triangle_stay_within_one_unit_of_their_real_formulas() {
    let size = 1000u16;
    let saw = generate_wave_table(Waveform::Saw, size);
    let triangle = generate_wave_table(Waveform::Triangle, size);
    let unit = 1.0 / ONE as f64;
    for n in 0..size as usize {
        let t = n as f64 / size as f64;
        assert!((saw.sample(n) as f64 / ONE as f64 - (2.0 * t - 1.0)).abs() <= unit);
        assert!(
            (triangle.sample(n) as f64 / ONE as f64 - (4.0 * (t - 0.5).abs() - 1.0)).abs() <= unit
        );
    }
}

#[test]
fn generation_is_deterministic() {
    for waveform in shapes() {
        let first = generate_wave_table(waveform, 300);
        let second = generate_wave_table(waveform, 300);
        assert_eq!(samples(&first), samples(&second));
    }
}

#[test]
fn a_cloned_table_holds_the_same_samples() {
    let table = generate_wave_table(Waveform::Triangle, 8);
    let shared = table.clone();
    assert_eq!(shared.len(), 8);
    assert_eq!(samples(&shared), samples(&table));
    drop(table);
    assert_eq!(samples(&shared), vec![65536, 32768, 0, -32768, -65536, -32768, 0, 32768]);
}
