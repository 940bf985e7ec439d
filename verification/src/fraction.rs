//! Exact non-negative fractions.
use vstd::prelude::*;

verus! {

/// A non-negative fraction `num / den`, kept exactly as computed
/// (it is not reduced to lowest terms).
///
/// The derived `==` compares representations: 2/4 and 1/2 are different
/// there. To compare values, use `value_eq` and `value_le`.
#[derive(Debug, Clone, Copy, PartialEq, Eq, Structural)]
pub struct Fraction {
    /// Numerator.
    pub num: u128,
    /// Denominator.
    pub den: u128,
}

/// The product of two values that fit in 64 bits fits in 128 bits.
pub proof fn lemma_u64_product_fits(a: int, b: int)
    requires
        0 <= a <= u64::MAX,
        0 <= b <= u64::MAX,
    ensures
        0 <= a * b <= u64::MAX * u64::MAX,
        u64::MAX * u64::MAX + u64::MAX <= u128::MAX,
{
    assert(0 <= a * b <= 0xffff_ffff_ffff_ffff * 0xffff_ffff_ffff_ffffint) by (nonlinear_arith)
        requires
            0 <= a <= 0xffff_ffff_ffff_ffff,
            0 <= b <= 0xffff_ffff_ffff_ffff,
    ;
}

/// Compares `a / b` with `c / d` by value, without forming the products
/// `a * d` and `c * b`: -1 when smaller, 0 when equal, 1 when greater.
/// Equal integer parts leave the remainders `ra / b` and `rc / d`, which
/// compare as `d / rc` and `b / ra` do (a continued-fraction step).
fn compare_values(a: u128, b: u128, c: u128, d: u128) -> (r: i8)
    requires
        b > 0,
        d > 0,
    ensures
        r == -1 <==> a * d < c * b,
        r == 0 <==> a * d == c * b,
        r == 1 <==> a * d > c * b,
    decreases b + d,
{
    let qa: u128 = a / b;
    let ra: u128 = a % b;
    let qc: u128 = c / d;
    let rc: u128 = c % d;
    let ghost ai: int = a as int;
    let ghost bi: int = b as int;
    let ghost ci: int = c as int;
    let ghost di: int = d as int;
    let ghost qai: int = qa as int;
    let ghost rai: int = ra as int;
    let ghost qci: int = qc as int;
    let ghost rci: int = rc as int;
    proof {
        vstd::arithmetic::div_mod::lemma_fundamental_div_mod(ai, bi);
        vstd::arithmetic::div_mod::lemma_fundamental_div_mod(ci, di);
        assert(ai * di - ci * bi == (qai - qci) * bi * di + rai * di - rci * bi) by (nonlinear_arith)
            requires
                ai == bi * qai + rai,
                ci == di * qci + rci,
        ;
        assert(rai * di < bi * di) by (nonlinear_arith)
            requires
                0 <= rai < bi,
                di > 0,
        ;
        assert(rci * bi < di * bi) by (nonlinear_arith)
            requires
                0 <= rci < di,
                bi > 0,
        ;
        assert(rai * di >= 0 && rci * bi >= 0) by (nonlinear_arith)
            requires
                rai >= 0,
                rci >= 0,
                bi > 0,
                di > 0,
        ;
    }
    if qa < qc {
        proof {
            assert((qai - qci) * bi * di <= -(bi * di)) by (nonlinear_arith)
                requires
                    qai - qci <= -1,
                    bi > 0,
                    di > 0,
            ;
        }
        return -1;
    }
    if qa > qc {
        proof {
            assert((qai - qci) * bi * di >= di * bi) by (nonlinear_arith)
                requires
                    qai - qci >= 1,
                    bi > 0,
                    di > 0,
            ;
        }
        return 1;
    }
    proof {
        assert((qai - qci) * bi * di == 0) by (nonlinear_arith)
            requires
                qai == qci,
        ;
    }
    if ra == 0 {
        proof {
            assert(rai * di == 0) by (nonlinear_arith)
                requires
                    rai == 0,
            ;
            assert(rci > 0 ==> rci * bi > 0) by (nonlinear_arith)
                requires
                    bi > 0,
            ;
        }
        if rc == 0 {
            proof {
                assert(rci * bi == 0) by (nonlinear_arith)
                    requires
                        rci == 0,
                ;
            }
            return 0;
        }
        return -1;
    }
    if rc == 0 {
        proof {
            assert(rci * bi == 0) by (nonlinear_arith)
                requires
                    rci == 0,
            ;
            assert(rai * di > 0) by (nonlinear_arith)
                requires
                    rai > 0,
                    di > 0,
            ;
        }
        return 1;
    }
    let r: i8 = compare_values(d, rc, b, ra);
    proof {
        assert(di * rai == rai * di && bi * rci == rci * bi) by (nonlinear_arith);
    }
    r
}

impl Fraction {
    /// Whether `self` and `other` denote the same rational number
    /// (2/4 and 1/2 do).
    pub fn value_eq(&self, other: &Fraction) -> (r: bool)
        requires
            self.wf(),
            other.wf(),
        ensures
            r == self.same_value(*other),
    {
        compare_values(self.num, self.den, other.num, other.den) == 0
    }

    /// Whether `self <= other` as rational numbers.
    pub fn value_le(&self, other: &Fraction) -> (r: bool)
        requires
            self.wf(),
            other.wf(),
        ensures
            r == self.le(*other),
    {
        compare_values(self.num, self.den, other.num, other.den) <= 0
    }

    /// A fraction whose denominator is not zero.
    pub open spec fn wf(self) -> bool {
        self.den > 0
    }

    /// `self` and `other` denote the same rational number.
    pub open spec fn same_value(self, other: Fraction) -> bool {
        self.num * other.den == other.num * self.den
    }

    /// `self <= other` as rational numbers (both denominators positive).
    pub open spec fn le(self, other: Fraction) -> bool {
        self.num * other.den <= other.num * self.den
    }

    /// The fraction zero, written `0 / 1`.
    pub open spec fn zero() -> Fraction {
        Fraction { num: 0, den: 1 }
    }

    /// The fraction `num / den`.
    pub open spec fn of(num: int, den: int) -> Fraction {
        Fraction { num: num as u128, den: den as u128 }
    }
}

} // verus!
