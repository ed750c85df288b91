//! Wave shapes and the tables generated from them.
//!
//! A table holds one period of a wave as fixed-point samples between -1.0 and
//! 1.0. It is never changed once made, and every oscillator that plays it
//! holds a handle to the same samples.

use crate::fixed::{div_toward_zero, lemma_div_toward_zero_bounded, ONE};
use std::sync::Arc;
use vstd::prelude::*;

verus! {

/// The longest table that can be made.
pub const MAX_TABLE_LEN: usize = 0xFFFF;

/// 1.0 on the fine grid of 30 fractional bits, on which the sine is summed.
pub const FINE_ONE: i64 = 0x4000_0000;

/// The number of fine steps in one sample unit.
pub const FINE_PER_UNIT: i64 = 0x4000;

/// The coefficients of the sine's power series over a quarter period, on
/// the fine grid: `(pi / 2)^k / k!` for `k` = 1, 3, 5, 7, 9, 11 and 13.
pub const SINE_TERM_1: i64 = 1686629713;

/// `(pi / 2)^3 / 3!` on the fine grid.
pub const SINE_TERM_3: i64 = 693598668;

/// `(pi / 2)^5 / 5!` on the fine grid.
pub const SINE_TERM_5: i64 = 85569306;

/// `(pi / 2)^7 / 7!` on the fine grid.
pub const SINE_TERM_7: i64 = 5026995;

/// `(pi / 2)^9 / 9!` on the fine grid.
pub const SINE_TERM_9: i64 = 172272;

/// `(pi / 2)^11 / 11!` on the fine grid.
pub const SINE_TERM_11: i64 = 3864;

/// `(pi / 2)^13 / 13!` on the fine grid.
pub const SINE_TERM_13: i64 = 61;

/// The shape of one period of a wave.
#[derive(Clone, Copy, PartialEq, Eq, Debug)]
pub enum Waveform {
    Sine,
    Saw,
    Square,
    Triangle,
}

/// The rising ramp `2 * (n / size) - 1`.
pub open spec fn saw_sample(n: int, size: int) -> int {
    div_toward_zero((2 * n - size) * ONE, size)
}

/// 1.0 while `n / size` is below one half, and -1.0 from there on.
pub open spec fn square_sample(n: int, size: int) -> int {
    if 2 * n < size {
        ONE as int
    } else {
        -ONE
    }
}

/// The fold `4 * |n / size - 1/2| - 1`, which starts at 1.0 and reaches -1.0
/// at the middle of the period.
pub open spec fn triangle_sample(n: int, size: int) -> int {
    let spread = if 4 * n >= 2 * size {
        4 * n - 2 * size
    } else {
        2 * size - 4 * n
    };
    div_toward_zero((spread - size) * ONE, size)
}

/// The product of two numbers on the fine grid, rounded down.
pub open spec fn fine_product(a: int, b: int) -> int {
    (a * b) / (FINE_ONE as int)
}

/// The sine over a quarter period, on the fine grid: `sin(pi / 2 * x)` for
/// `x` from 0 to 1, as the first seven terms of the sine's power series
/// `c1 x - c3 x^3 + c5 x^5 - ... + c13 x^13`, summed from the last term
/// inward.
pub open spec fn quarter_sine(x: int) -> int {
    let square = fine_product(x, x);
    let from_13 = SINE_TERM_13 as int;
    let from_11 = SINE_TERM_11 - fine_product(square, from_13);
    let from_9 = SINE_TERM_9 - fine_product(square, from_11);
    let from_7 = SINE_TERM_7 - fine_product(square, from_9);
    let from_5 = SINE_TERM_5 - fine_product(square, from_7);
    let from_3 = SINE_TERM_3 - fine_product(square, from_5);
    let from_1 = SINE_TERM_1 - fine_product(square, from_3);
    fine_product(x, from_1)
}

/// How far sample `n` stands from the nearest zero of the sine, in
/// quarters of a sample: the sine rises over the first quarter period,
/// falls back over the second, and repeats both negated.
pub open spec fn quarter_distance(n: int, size: int) -> int {
    let turned = 4 * n;
    if turned <= size {
        turned
    } else if turned <= 2 * size {
        2 * size - turned
    } else if turned <= 3 * size {
        turned - 2 * size
    } else {
        4 * size - turned
    }
}

/// The sine of `2 * pi * n / size`: the quarter sine at the sample's
/// distance from the nearest zero, rounded to the nearest sample value and
/// held to full scale, positive over the first half period and negative
/// over the second.
pub open spec fn sine_sample(n: int, size: int) -> int {
    let x = (quarter_distance(n, size) * FINE_ONE) / size;
    let rounded = (quarter_sine(x) + FINE_PER_UNIT / 2) / (FINE_PER_UNIT as int);
    let magnitude = if rounded > ONE {
        ONE as int
    } else {
        rounded
    };
    if 4 * n <= 2 * size {
        magnitude
    } else {
        -magnitude
    }
}

/// Sample `n` of a table of `size` samples of the given shape.
pub open spec fn wave_sample(waveform: Waveform, n: int, size: int) -> int {
    match waveform {
        Waveform::Sine => sine_sample(n, size),
        Waveform::Saw => saw_sample(n, size),
        Waveform::Square => square_sample(n, size),
        Waveform::Triangle => triangle_sample(n, size),
    }
}

/// One period of the given shape as `size` samples.
pub open spec fn wave_table(waveform: Waveform, size: nat) -> Seq<i32> {
    Seq::new(size, |n: int| wave_sample(waveform, n, size as int) as i32)
}

/// Every sample lies between -1.0 and 1.0, and the table is no longer than
/// `MAX_TABLE_LEN`.
pub open spec fn normalized(samples: Seq<i32>) -> bool {
    &&& samples.len() <= MAX_TABLE_LEN
    &&& forall|n: int| 0 <= n < samples.len() ==> -ONE <= #[trigger] samples[n] <= ONE
}

/// A product with a factor of at most 1.0 is no larger than the other
/// factor.
proof fn lemma_fine_product_bounded(a: int, b: int)
    requires
        0 <= a <= FINE_ONE,
        0 <= b,
    ensures
        0 <= a * b <= FINE_ONE * b,
        0 <= fine_product(a, b) <= b,
{
    assert(0 <= a * b <= FINE_ONE * b) by (nonlinear_arith)
        requires
            0 <= a <= FINE_ONE,
            0 <= b,
    ;
}

/// Over the quarter period the sum of the series is never negative and
/// never above its first coefficient.
pub proof fn lemma_quarter_sine_bounded(x: int)
    requires
        0 <= x <= FINE_ONE,
    ensures
        0 <= quarter_sine(x) <= SINE_TERM_1,
{
    let square = fine_product(x, x);
    lemma_fine_product_bounded(x, x);
    let from_13 = SINE_TERM_13 as int;
    lemma_fine_product_bounded(square, from_13);
    let from_11 = SINE_TERM_11 - fine_product(square, from_13);
    lemma_fine_product_bounded(square, from_11);
    let from_9 = SINE_TERM_9 - fine_product(square, from_11);
    lemma_fine_product_bounded(square, from_9);
    let from_7 = SINE_TERM_7 - fine_product(square, from_9);
    lemma_fine_product_bounded(square, from_7);
    let from_5 = SINE_TERM_5 - fine_product(square, from_7);
    lemma_fine_product_bounded(square, from_5);
    let from_3 = SINE_TERM_3 - fine_product(square, from_5);
    lemma_fine_product_bounded(square, from_3);
    let from_1 = SINE_TERM_1 - fine_product(square, from_3);
    lemma_fine_product_bounded(x, from_1);
}

/// A sample is at most a quarter period away from a zero of the sine, so
/// the quarter sine is asked for a part of the quarter period between
/// 0 and 1.
proof fn lemma_quarter_part_bounded(n: int, size: int)
    requires
        0 <= n < size,
    ensures
        0 <= quarter_distance(n, size) <= size,
        0 <= quarter_distance(n, size) * FINE_ONE <= size * FINE_ONE,
        0 <= (quarter_distance(n, size) * FINE_ONE) / size <= FINE_ONE,
{
    let passed = quarter_distance(n, size);
    assert(0 <= (passed * FINE_ONE) / size <= FINE_ONE) by (nonlinear_arith)
        requires
            size > 0,
            0 <= passed * FINE_ONE <= size * FINE_ONE,
    ;
}

/// Every sample of every shape lies between -1.0 and 1.0.
pub proof fn lemma_wave_sample_bounded(waveform: Waveform, n: int, size: int)
    requires
        0 <= n < size,
    ensures
        -ONE <= wave_sample(waveform, n, size) <= ONE,
{
    match waveform {
        Waveform::Sine => {
            lemma_quarter_part_bounded(n, size);
            lemma_quarter_sine_bounded((quarter_distance(n, size) * FINE_ONE) / size);
        },
        Waveform::Saw => {
            lemma_div_toward_zero_bounded((2 * n - size) * ONE, size, ONE as int);
        },
        Waveform::Square => {},
        Waveform::Triangle => {
            let spread = if 4 * n >= 2 * size {
                4 * n - 2 * size
            } else {
                2 * size - 4 * n
            };
            lemma_div_toward_zero_bounded((spread - size) * ONE, size, ONE as int);
        },
    }
}

/// Every generated table is normalized.
pub proof fn lemma_wave_table_normalized(waveform: Waveform, size: nat)
    requires
        size <= MAX_TABLE_LEN,
    ensures
        normalized(wave_table(waveform, size)),
{
    let table = wave_table(waveform, size);
    assert forall|n: int| 0 <= n < table.len() implies -ONE <= #[trigger] table[n] <= ONE by {
        lemma_wave_sample_bounded(waveform, n, size as int);
    }
}

/// At the start of the quarter period the quarter sine is 0, and at its
/// end it rounds to 1.0.
proof fn lemma_quarter_sine_ends()
    ensures
        quarter_sine(0) == 0,
        quarter_sine(FINE_ONE as int) == 1073741825,
{
    assert(fine_product(0, 0) == 0);
    assert(fine_product(0, SINE_TERM_1 as int) == 0);
    let one = FINE_ONE as int;
    assert forall|b: int| fine_product(one, b) == b by {
        assert((one * b) / one == b) by (nonlinear_arith)
            requires
                one == 0x4000_0000,
        ;
    }
}

/// The sine is exact at the quarters of the period: 0, 1.0, 0 and -1.0.
pub proof fn lemma_sine_quarters(size: int)
    requires
        size > 0,
        size % 4 == 0,
    ensures
        sine_sample(0, size) == 0,
        sine_sample(size / 4, size) == ONE,
        sine_sample(size / 2, size) == 0,
        sine_sample(3 * (size / 4), size) == -ONE,
{
    lemma_quarter_sine_ends();
    assert((0 * FINE_ONE) / size == 0 && (size * FINE_ONE) / size == FINE_ONE)
        by (nonlinear_arith)
        requires
            size > 0,
    ;
}

/// The second half of the sine is the first half negated.
pub proof fn lemma_sine_half_period(n: int, size: int)
    requires
        size > 0,
        size % 2 == 0,
        0 <= n < size / 2,
    ensures
        sine_sample(n + size / 2, size) == -sine_sample(n, size),
{
    assert(quarter_distance(n + size / 2, size) == quarter_distance(n, size));
    if n == 0 {
        lemma_quarter_sine_ends();
        assert((0 * FINE_ONE) / size == 0) by (nonlinear_arith)
            requires
                size > 0,
        ;
    }
}

/// Each half of the sine is symmetric about its middle.
pub proof fn lemma_sine_mirror(n: int, size: int)
    requires
        size > 0,
        size % 2 == 0,
        0 <= n <= size / 2,
    ensures
        sine_sample(size / 2 - n, size) == sine_sample(n, size),
{
    assert(quarter_distance(size / 2 - n, size) == quarter_distance(n, size));
}

/// One period of a wave: fixed-point samples between -1.0 and 1.0, shared
/// read-only by every oscillator that plays it.
pub struct Wavetable {
    samples: Arc<Vec<i32>>,
}

/// Another handle to the same samples. This is `Arc::clone`, which makes a
/// new pointer to the allocation it is given and leaves the vector behind it
/// untouched; the contract claims that the new handle holds that vector.
#[verifier::external_body]
fn share_samples(samples: &Arc<Vec<i32>>) -> (shared: Arc<Vec<i32>>)
    ensures
        shared == *samples,
{
    Arc::clone(samples)
}

impl Clone for Wavetable {
    /// Another handle to the same table; no sample is copied.
    fn clone(&self) -> (shared: Self)
        ensures
            shared@ == self@,
    {
        proof {
            use_type_invariant(self);
        }
        Wavetable { samples: share_samples(&self.samples) }
    }
}

impl View for Wavetable {
    type V = Seq<i32>;

    closed spec fn view(&self) -> Seq<i32> {
        self.samples@
    }
}

impl Wavetable {
    /// What holds of every table: its samples are normalized.
    #[verifier::type_invariant]
    pub open spec fn wf(&self) -> bool {
        normalized(self@)
    }

    /// The number of samples in the table.
    pub fn len(&self) -> (len: usize)
        ensures
            len == self@.len(),
            len <= MAX_TABLE_LEN,
    {
        proof {
            use_type_invariant(self);
        }
        self.samples.len()
    }

    /// Sample `n` of the table.
    pub fn sample(&self, n: usize) -> (sample: i32)
        requires
            n < self@.len(),
        ensures
            sample == self@[n as int],
            -ONE <= sample <= ONE,
    {
        proof {
            use_type_invariant(self);
        }
        self.samples[n]
    }
}

/// The product of two numbers on the fine grid.
fn fine_mul(a: i64, b: i64) -> (product: i64)
    requires
        0 <= a <= FINE_ONE,
        0 <= b <= SINE_TERM_1,
    ensures
        product == fine_product(a as int, b as int),
        0 <= product <= b,
{
    proof {
        lemma_fine_product_bounded(a as int, b as int);
    }
    (a * b) / FINE_ONE
}

/// The quarter sine at `x`, a part of the quarter period on the fine grid.
fn quarter_sine_of(x: i64) -> (height: i64)
    requires
        0 <= x <= FINE_ONE,
    ensures
        height == quarter_sine(x as int),
        0 <= height <= SINE_TERM_1,
{
    let square = fine_mul(x, x);
    let from_11 = SINE_TERM_11 - fine_mul(square, SINE_TERM_13);
    let from_9 = SINE_TERM_9 - fine_mul(square, from_11);
    let from_7 = SINE_TERM_7 - fine_mul(square, from_9);
    let from_5 = SINE_TERM_5 - fine_mul(square, from_7);
    let from_3 = SINE_TERM_3 - fine_mul(square, from_5);
    let from_1 = SINE_TERM_1 - fine_mul(square, from_3);
    fine_mul(x, from_1)
}

/// Sample `n` of a table of `size` samples of the given shape.
fn sample_at(waveform: Waveform, n: u16, size: u16) -> (sample: i32)
    requires
        n < size,
    ensures
        sample == wave_sample(waveform, n as int, size as int),
        -ONE <= sample <= ONE,
{
    proof {
        lemma_wave_sample_bounded(waveform, n as int, size as int);
    }
    let n: i64 = n as i64;
    let size: i64 = size as i64;
    let one: i64 = ONE as i64;
    match waveform {
        Waveform::Sine => {
            let turned: i64 = 4 * n;
            let passed: i64 = if turned <= size {
                turned
            } else if turned <= 2 * size {
                2 * size - turned
            } else if turned <= 3 * size {
                turned - 2 * size
            } else {
                4 * size - turned
            };
            proof {
                lemma_quarter_part_bounded(n as int, size as int);
            }
            let height: i64 = quarter_sine_of((passed * FINE_ONE) / size);
            let rounded: i64 = (height + FINE_PER_UNIT / 2) / FINE_PER_UNIT;
            let magnitude: i64 = if rounded > one {
                one
            } else {
                rounded
            };
            if turned <= 2 * size {
                magnitude as i32
            } else {
                (-magnitude) as i32
            }
        },
        Waveform::Saw => (((2 * n - size) * one) / size) as i32,
        Waveform::Square => if 2 * n < size {
            ONE
        } else {
            -ONE
        },
        Waveform::Triangle => {
            let spread: i64 = if 4 * n >= 2 * size {
                4 * n - 2 * size
            } else {
                2 * size - 4 * n
            };
            (((spread - size) * one) / size) as i32
        },
    }
}

/// Generates one period of the given shape as a table of `size` samples.
pub fn generate_wave_table(waveform: Waveform, size: u16) -> (table: Wavetable)
    ensures
        table@ == wave_table(waveform, size as nat),
        forall|n: int| 0 <= n < size ==> table@[n] == wave_sample(waveform, n, size as int),
        normalized(table@),
{
    let mut samples: Vec<i32> = Vec::new();
    let mut n: u16 = 0;
    while n < size
        invariant
            n <= size,
            samples@.len() == n,
            forall|k: int| 0 <= k < n ==> samples@[k] == wave_sample(waveform, k, size as int),
            forall|k: int| 0 <= k < n ==> -ONE <= #[trigger] samples@[k] <= ONE,
        decreases size - n,
    {
        samples.push(sample_at(waveform, n, size));
        n = n + 1;
    }
    assert(samples@ =~= wave_table(waveform, size as nat));
    Wavetable { samples: Arc::new(samples) }
}

} // verus!
