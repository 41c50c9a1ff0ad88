//! Exact rational arithmetic for scores, proportions and grade points.
//!
//! Scores and proportions enter the engine as fixed-point integers (a value
//! of `x` stands for `x / 100`, so `8450` is `84.5`). Intermediate results of
//! the normalization and aggregation steps are exact fractions held as a
//! numerator and a positive denominator. "Undetermined" values (the engine's
//! analogue of an unreleased or unmatchable score) are represented by
//! `Option::None` at the use sites, never by a special number.
use vstd::prelude::*;

verus! {

/// Greatest magnitude (in whole value units) that a subject-level score
/// fraction may reach; generous room for dynamic scores far above 100.
pub const SCORE_VAL_LIMIT: i128 = 1_000_000_000;

/// Greatest denominator a subject-level score fraction may carry.
pub const SCORE_DEN_LIMIT: i128 = 100_000_000_000_000_000_000_000_000;

/// True when `x` lies within the machine range of `i128`.
pub open spec fn fits_i128(x: int) -> bool {
    i128::MIN <= x <= i128::MAX
}

/// Rounding of `(num / den) * scale` to the nearest integer, halves rounded
/// up (towards positive infinity), for a positive `den`.
pub open spec fn round_scaled(num: int, den: int, scale: int) -> int {
    (2 * scale * num + den) / (2 * den)
}

/// Half-up rounding keeps a value bound: a fraction of value within `m`
/// units rounds, at `scale`, to within `scale * m`.
pub proof fn lemma_round_scaled_bound(num: int, den: int, scale: int, m: int)
    requires
        0 < den,
        0 <= scale,
        0 <= m,
        -(m * den) <= num <= m * den,
    ensures
        -(scale * m) <= round_scaled(num, den, scale) <= scale * m,
{
    let sm = scale * m;
    assert(2 * den * (-sm) + den <= 2 * scale * num + den <= 2 * den * sm + den)
        by (nonlinear_arith)
        requires
            0 < den,
            0 <= scale,
            0 <= m,
            -(m * den) <= num <= m * den,
            sm == scale * m,
    ;
    vstd::arithmetic::div_mod::lemma_div_multiples_vanish_fancy(sm, den, 2 * den);
    vstd::arithmetic::div_mod::lemma_div_multiples_vanish_fancy(-sm, den, 2 * den);
    vstd::arithmetic::div_mod::lemma_div_is_ordered(
        2 * scale * num + den,
        2 * den * sm + den,
        2 * den,
    );
    vstd::arithmetic::div_mod::lemma_div_is_ordered(
        2 * den * (-sm) + den,
        2 * scale * num + den,
        2 * den,
    );
}

/// A score-bounded fraction can be rounded at any display scale up to
/// hundredths without leaving the machine range.
pub proof fn lemma_score_bounded_round_fits(f: Frac, scale: i64)
    requires
        f.score_bounded(),
        1 <= scale <= 100,
    ensures
        fits_i128(2 * scale * f.num),
        fits_i128(2 * scale * f.num + f.den),
        fits_i128(2 * f.den),
        -(scale * SCORE_VAL_LIMIT) <= round_scaled(f.num as int, f.den as int, scale as int)
            <= scale * SCORE_VAL_LIMIT,
{
    lemma_round_scaled_bound(f.num as int, f.den as int, scale as int, SCORE_VAL_LIMIT as int);
    assert(-(200 * (SCORE_VAL_LIMIT * SCORE_DEN_LIMIT)) <= 2 * scale * f.num <= 200 * (
    SCORE_VAL_LIMIT * SCORE_DEN_LIMIT)) by (nonlinear_arith)
        requires
            0 < f.den <= SCORE_DEN_LIMIT,
            -(SCORE_VAL_LIMIT * f.den) <= f.num <= SCORE_VAL_LIMIT * f.den,
            1 <= scale <= 100,
    ;
}

/// An exact fraction `num / den` with a positive denominator.
#[derive(Clone, Copy, Debug, PartialEq, Eq, Structural)]
pub struct Frac {
    pub num: i128,
    pub den: i128,
}

impl Frac {
    /// Basic well-formedness: the denominator is positive.
    pub open spec fn wf(self) -> bool {
        0 < self.den
    }

    /// The fraction has the exact value `n / d`.
    pub open spec fn same_ratio(self, n: int, d: int) -> bool {
        self.num * d == n * self.den
    }

    /// The fraction has the exact integer value `n`.
    pub open spec fn is_int(self, n: int) -> bool {
        self.num == n * self.den
    }

    /// Bounds fit for a subject-level score: the value lies within
    /// `SCORE_VAL_LIMIT` units and the denominator within `SCORE_DEN_LIMIT`.
    pub open spec fn score_bounded(self) -> bool {
        &&& 0 < self.den <= SCORE_DEN_LIMIT
        &&& -(SCORE_VAL_LIMIT * self.den) <= self.num <= SCORE_VAL_LIMIT * self.den
    }

    /// The fraction with the exact integer value `n`.
    pub fn from_int(n: i64) -> (r: Frac)
        ensures
            r.num == n,
            r.den == 1,
            r.wf(),
            r.is_int(n as int),
    {
        Frac { num: n as i128, den: 1 }
    }

    /// Exact difference `self - other`, as a fraction over the product of the
    /// two denominators.
    pub fn sub(&self, other: &Frac) -> (r: Frac)
        requires
            self.wf(),
            other.wf(),
            fits_i128(self.num * other.den),
            fits_i128(other.num * self.den),
            fits_i128(self.num * other.den - other.num * self.den),
            fits_i128(self.den * other.den),
        ensures
            r.num == self.num * other.den - other.num * self.den,
            r.den == self.den * other.den,
            r.wf(),
    {
        proof {
            vstd::arithmetic::mul::lemma_mul_strictly_positive(
                self.den as int,
                other.den as int,
            );
        }
        Frac { num: self.num * other.den - other.num * self.den, den: self.den * other.den }
    }

    /// `(value * scale)` rounded to the nearest integer, halves up: the
    /// engine's display/lookup rounding (`scale == 10` gives tenths).
    pub fn round_half_up(&self, scale: i64) -> (t: i128)
        requires
            self.wf(),
            1 <= scale,
            fits_i128(2 * scale * self.num),
            fits_i128(2 * scale * self.num + self.den),
            fits_i128(2 * self.den),
        ensures
            t == round_scaled(self.num as int, self.den as int, scale as int),
    {
        let n2: i128 = 2 * (scale as i128) * self.num + self.den;
        let d2: i128 = 2 * self.den;
        let q = n2.checked_div_euclid(d2);
        proof {
            let n = n2 as int;
            let d = d2 as int;
            vstd::arithmetic::div_mod::lemma_fundamental_div_mod(n, d);
            vstd::arithmetic::div_mod::lemma_mod_division_less_than_divisor(n, d);
            assert(i128::MIN <= n / d <= i128::MAX) by (nonlinear_arith)
                requires
                    n == d * (n / d) + n % d,
                    0 <= n % d < d,
                    2 <= d,
                    i128::MIN <= n <= i128::MAX,
            ;
        }
        q.unwrap()
    }


    /// The fraction divided by a positive integer; `None` when the divisor
    /// is not positive or the scaled denominator leaves the machine range.
    pub fn try_div_int(&self, k: i64) -> (r: Option<Frac>)
        requires
            self.wf(),
        ensures
            match r {
                Some(g) => k > 0 && g.num == self.num && g.den == self.den * k && g.wf(),
                None => k <= 0 || !fits_i128(self.den * k),
            },
    {
        if k <= 0 {
            return None;
        }
        match self.den.checked_mul(k as i128) {
            Some(d) => {
                proof {
                    vstd::arithmetic::mul::lemma_mul_strictly_positive(
                        self.den as int,
                        k as int,
                    );
                }
                Some(Frac { num: self.num, den: d })
            },
            None => None,
        }
    }

    /// Total variant of `round_half_up`: `None` exactly when the scaled
    /// numerator leaves the machine range.
    pub fn try_round_half_up(&self, scale: i64) -> (r: Option<i128>)
        requires
            self.wf(),
            1 <= scale,
        ensures
            match r {
                Some(t) => {
                    &&& fits_i128(2 * scale * self.num)
                    &&& fits_i128(2 * scale * self.num + self.den)
                    &&& fits_i128(2 * self.den)
                    &&& t == round_scaled(self.num as int, self.den as int, scale as int)
                },
                None => !(fits_i128(2 * scale * self.num) && fits_i128(
                    2 * scale * self.num + self.den,
                ) && fits_i128(2 * self.den)),
            },
    {
        let s2: i128 = 2 * (scale as i128);
        match s2.checked_mul(self.num) {
            Some(p) => match p.checked_add(self.den) {
                Some(n2) => match self.den.checked_mul(2) {
                    Some(d2) => Some(self.round_half_up(scale)),
                    None => None,
                },
                None => None,
            },
            None => None,
        }
    }
}

} // verus!
