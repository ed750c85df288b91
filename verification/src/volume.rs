//! The master volume: a level between 5 and 100 hundredths of full scale
//! that moves in steps of 5.

use crate::fixed::{div_toward_zero, lemma_div_toward_zero_bounded};
use vstd::prelude::*;

verus! {

/// Full scale, in hundredths.
pub const VOLUME_FULL: u32 = 100;

/// The lowest level the volume can be lowered to, in hundredths.
pub const VOLUME_FLOOR: u32 = 5;

/// What one step changes the volume by, in hundredths.
pub const VOLUME_STEP: u32 = 5;

/// A level that the volume can stand at: a whole number of steps between
/// the floor and full scale.
pub open spec fn on_grid(level: int) -> bool {
    &&& VOLUME_FLOOR <= level <= VOLUME_FULL
    &&& level % (VOLUME_STEP as int) == 0
}

/// The level one step up, or the same level where the step would lead
/// above full scale.
pub open spec fn raised(level: int) -> int {
    if level + VOLUME_STEP <= VOLUME_FULL {
        level + VOLUME_STEP
    } else {
        level
    }
}

/// The level one step down, or the same level where the step would lead
/// below the floor.
pub open spec fn lowered(level: int) -> int {
    if level >= VOLUME_FLOOR + VOLUME_STEP {
        level - VOLUME_STEP
    } else {
        level
    }
}

/// A sample at the given level: `sample * level / 100`, rounded toward zero.
pub open spec fn scaled(sample: int, level: int) -> int {
    div_toward_zero(sample * level, VOLUME_FULL as int)
}

/// On the grid a step up is taken exactly below full scale and a step down
/// exactly above the floor, and both stay on the grid.
pub proof fn lemma_steps_on_grid(level: int)
    requires
        on_grid(level),
    ensures
        on_grid(raised(level)),
        on_grid(lowered(level)),
        raised(level) == if level < VOLUME_FULL {
            level + VOLUME_STEP
        } else {
            level
        },
        lowered(level) == if level > VOLUME_FLOOR {
            level - VOLUME_STEP
        } else {
            level
        },
{
}

/// Scaling never makes a sample larger in magnitude.
pub proof fn lemma_scaled_bounded(sample: int, level: int, bound: int)
    requires
        0 <= level <= VOLUME_FULL,
        -bound <= sample <= bound,
    ensures
        -bound <= scaled(sample, level) <= bound,
        sample >= 0 ==> scaled(sample, level) >= 0,
        sample <= 0 ==> scaled(sample, level) <= 0,
{
    assert(sample >= 0 ==> sample * level >= 0) by (nonlinear_arith)
        requires
            0 <= level,
    ;
    assert(sample <= 0 ==> sample * level <= 0) by (nonlinear_arith)
        requires
            0 <= level,
    ;
    assert(-(bound * 100) <= sample * level <= bound * 100) by (nonlinear_arith)
        requires
            0 <= level <= 100,
            -bound <= sample <= bound,
    ;
    lemma_div_toward_zero_bounded(sample * level, VOLUME_FULL as int, bound);
}

/// The master volume.
pub struct MasterVolume {
    percent: u32,
}

impl View for MasterVolume {
    type V = int;

    closed spec fn view(&self) -> int {
        self.percent as int
    }
}

impl MasterVolume {
    /// What holds of every volume: it stands on the grid.
    #[verifier::type_invariant]
    pub open spec fn wf(&self) -> bool {
        on_grid(self@)
    }

    /// The volume at full scale.
    pub fn new() -> (volume: Self)
        ensures
            volume@ == VOLUME_FULL,
    {
        MasterVolume { percent: VOLUME_FULL }
    }

    /// One step up; at full scale nothing happens.
    pub fn increase(&mut self)
        ensures
            final(self)@ == raised(old(self)@),
            final(self)@ == if old(self)@ < VOLUME_FULL {
                old(self)@ + VOLUME_STEP
            } else {
                old(self)@
            },
    {
        proof {
            use_type_invariant(&*self);
        }
        if self.percent < VOLUME_FULL {
            self.percent = self.percent + VOLUME_STEP;
        }
    }

    /// One step down; at the floor nothing happens.
    pub fn decrease(&mut self)
        ensures
            final(self)@ == lowered(old(self)@),
            final(self)@ == if old(self)@ > VOLUME_FLOOR {
                old(self)@ - VOLUME_STEP
            } else {
                old(self)@
            },
    {
        proof {
            use_type_invariant(&*self);
        }
        if self.percent > VOLUME_FLOOR {
            self.percent = self.percent - VOLUME_STEP;
        }
    }

    /// The sample at this volume.
    pub fn apply(&self, sample: i32) -> (out: i32)
        ensures
            out == scaled(sample as int, self@),
    {
        proof {
            use_type_invariant(self);
            lemma_scaled_bounded(
                sample as int,
                self@,
                if sample >= 0 {
                    sample as int
                } else {
                    -sample
                },
            );
        }
        let wide: i64 = sample as i64;
        let level: i64 = self.percent as i64;
        assert(-0x8000_0000 * 100 <= wide * level <= 0x8000_0000 * 100) by (nonlinear_arith)
            requires
                -0x8000_0000 <= wide <= 0x8000_0000,
                0 <= level <= 100,
        ;
        ((wide * level) / (VOLUME_FULL as i64)) as i32
    }

    /// The level, in hundredths of full scale.
    pub fn percent(&self) -> (percent: u32)
        ensures
            percent == self@,
            on_grid(self@),
    {
        proof {
            use_type_invariant(self);
        }
        self.percent
    }
}

} // verus!
