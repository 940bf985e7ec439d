//! Swing feel: how far the off-beat lands from the grid.
use vstd::prelude::*;
use crate::fraction::{Fraction, lemma_u64_product_fits};

verus! {

/// `floor(ms * ratio)`: a duration of `ms` milliseconds scaled by `ratio`.
pub open spec fn scaled_ms(ms: u64, ratio: Fraction) -> u64 {
    ((ms as int * ratio.num as int) / ratio.den as int) as u64
}

/// The lower bound of a custom swing ratio, 25/100.
pub open spec fn min_custom_ratio() -> Fraction {
    Fraction { num: 25, den: 100 }
}

/// The upper bound of a custom swing ratio, 90/100.
pub open spec fn max_custom_ratio() -> Fraction {
    Fraction { num: 90, den: 100 }
}

/// `ratio` clamped to the closed range from 25/100 to 90/100.
pub open spec fn clamp_ratio(ratio: Fraction) -> Fraction {
    if ratio.num * 100 < ratio.den * 25 {
        min_custom_ratio()
    } else if ratio.num * 100 > ratio.den * 90 {
        max_custom_ratio()
    } else {
        ratio
    }
}

/// Numerator of the groove factor of a ratio `n / d`: `|2n - d|`.
pub open spec fn groove_factor_num(ratio: Fraction) -> int {
    if 2 * ratio.num >= ratio.den {
        2 * ratio.num - ratio.den
    } else {
        ratio.den - 2 * ratio.num
    }
}

/// The groove factor of a ratio `n / d`: `|2n - d| / d`, that is
/// `|ratio - 1/2| * 2`.
pub open spec fn groove_factor_of(ratio: Fraction) -> Fraction {
    Fraction::of(groove_factor_num(ratio), ratio.den as int)
}

/// The swung time of an odd subdivision of `beat`: `beat + ratio`.
pub open spec fn swung_time(beat: u64, ratio: Fraction) -> Fraction {
    Fraction::of(beat * ratio.den + ratio.num, ratio.den as int)
}

/// Scaling by a ratio between 0 and 1 does not lengthen a duration.
pub proof fn lemma_scaled_within(ms: u64, ratio: Fraction)
    requires
        0 < ratio.den,
        ratio.num <= ratio.den,
    ensures
        scaled_ms(ms, ratio) <= ms,
{
    let mi: int = ms as int;
    let ni: int = ratio.num as int;
    let di: int = ratio.den as int;
    assert((mi * ni) / di <= mi) by (nonlinear_arith)
        requires
            0 <= mi,
            0 <= ni <= di,
            0 < di,
    {
        assert(mi * ni <= mi * di);
        assert((mi * ni) / di <= (mi * di) / di);
        assert((mi * di) / di == mi);
    }
}

/// The swing feel controls how far off the grid execution lands.
/// 50/100 = straight (on the beat), 66/100 = standard swing,
/// 75/100 = hard swing (New Orleans).
#[derive(Debug, Clone, Copy)]
pub struct SwingFeel {
    /// Ratio of the first half to the full beat (1/2 = straight, 66/100 = swing).
    pub ratio: Fraction,
}

impl SwingFeel {
    /// A ratio between 0 and 1, with a denominator that fits in 64 bits.
    pub open spec fn wf(&self) -> bool {
        &&& 0 < self.ratio.den <= u64::MAX
        &&& self.ratio.num <= self.ratio.den
    }

    /// Straight feel, ratio 50/100.
    pub fn straight() -> (r: Self)
        ensures
            r.ratio == Fraction::of(50, 100),
            r.wf(),
    {
        SwingFeel { ratio: Fraction { num: 50, den: 100 } }
    }

    /// Standard swing feel, ratio 66/100.
    pub fn swing() -> (r: Self)
        ensures
            r.ratio == Fraction::of(66, 100),
            r.wf(),
    {
        SwingFeel { ratio: Fraction { num: 66, den: 100 } }
    }

    /// Hard swing feel, ratio 75/100.
    pub fn hard_swing() -> (r: Self)
        ensures
            r.ratio == Fraction::of(75, 100),
            r.wf(),
    {
        SwingFeel { ratio: Fraction { num: 75, den: 100 } }
    }

    /// A custom feel whose ratio is `ratio` clamped to the range
    /// from 25/100 to 90/100.
    pub fn custom(ratio: Fraction) -> (r: Self)
        requires
            0 < ratio.den <= u64::MAX,
            ratio.num <= u64::MAX,
        ensures
            r.ratio == clamp_ratio(ratio),
            r.wf(),
    {
        if ratio.num * 100 < ratio.den * 25 {
            SwingFeel { ratio: Fraction { num: 25, den: 100 } }
        } else if ratio.num * 100 > ratio.den * 90 {
            SwingFeel { ratio: Fraction { num: 90, den: 100 } }
        } else {
            SwingFeel { ratio }
        }
    }

    /// The swung time of a subdivision of `beat`: an even subdivision
    /// (0 included) stays on the beat, an odd one lands `ratio` later.
    pub fn swing_time(&self, beat: u64, subdivision: u64) -> (r: Fraction)
        requires
            self.wf(),
        ensures
            subdivision % 2 == 0 ==> r == Fraction::of(beat as int, 1),
            subdivision % 2 == 0 ==> r.num == beat && r.den == 1,
            subdivision % 2 == 1 ==> r == swung_time(beat, self.ratio),
            subdivision % 2 == 1 ==> r.num == beat * self.ratio.den + self.ratio.num && r.den
                == self.ratio.den,
            r.wf(),
    {
        if subdivision == 0 {
            return Fraction { num: beat as u128, den: 1 };
        }
        if subdivision % 2 == 0 {
            Fraction { num: beat as u128, den: 1 }
        } else {
            proof {
                lemma_u64_product_fits(beat as int, self.ratio.den as int);
            }
            Fraction { num: beat as u128 * self.ratio.den + self.ratio.num, den: self.ratio.den }
        }
    }

    /// The groove factor `|ratio - 1/2| * 2`: 0 for a straight feel,
    /// growing as the feel swings harder.
    pub fn groove_factor(&self) -> (r: Fraction)
        requires
            self.wf(),
        ensures
            r == groove_factor_of(self.ratio),
            r.num == groove_factor_num(self.ratio),
            r.num <= r.den,
            r.den == self.ratio.den,
            r.wf(),
    {
        let twice = 2 * self.ratio.num;
        if twice >= self.ratio.den {
            Fraction { num: twice - self.ratio.den, den: self.ratio.den }
        } else {
            Fraction { num: self.ratio.den - twice, den: self.ratio.den }
        }
    }

    /// `ms` milliseconds scaled by the ratio, rounded down.
    pub(crate) fn scale_ms(&self, ms: u64) -> (r: u64)
        requires
            self.wf(),
        ensures
            r == scaled_ms(ms, self.ratio),
            r <= ms,
    {
        let num = self.ratio.num;
        let den = self.ratio.den;
        proof {
            lemma_u64_product_fits(ms as int, den as int);
            lemma_scaled_within(ms, self.ratio);
            assert(ms * num <= ms * den) by (nonlinear_arith)
                requires
                    num <= den,
            ;
        }
        let q: u128 = (ms as u128 * num) / den;
        q as u64
    }
}

impl Default for SwingFeel {
    /// The standard swing feel, ratio 66/100.
    fn default() -> (r: Self)
        ensures
            r.ratio == Fraction::of(66, 100),
            r.wf(),
    {
        SwingFeel { ratio: Fraction { num: 66, den: 100 } }
    }
}

} // verus!
