//! Distribution fitting helpers: from (intensity, shape) to the parameters
//! of each supported family, in fixed point.

use vstd::prelude::*;

use crate::math::{is_isqrt, isqrt, lemma_isqrt, spec_isqrt};
use crate::SCALE;

verus! {

/// Largest mean this module accepts, in micro-units: the mean `1/intensity`
/// of a stream whose intensity is at least one micro-unit.
pub const MEAN_LIMIT: u64 = 1_000_000_000_000;

/// Largest variance this module accepts, in micro-units squared:
/// `MEAN_LIMIT` squared times `SCALE`.
pub const VAR_LIMIT: u128 = 1_000_000_000_000_000_000_000_000_000_000;

/// The mean `1/intensity`, in micro-units, rounded down.
pub open spec fn spec_mean(intensity: int) -> int {
    (SCALE * SCALE) as int / intensity
}

/// The variance `mean^2 / (E^2/D^2)`, in micro-units squared, rounded down.
pub open spec fn spec_variance(mean: int, e2_d2: int) -> int {
    mean * mean * (SCALE as int) / e2_d2
}

/// Returns the mean (expected value) E and the variance D of a stream.
///
/// # Arguments
/// * `intensity` - `1/E` in micro-units, where E is the expected value
/// * `e2_d2` - the ratio `E^2 / D` in micro-units, where D is the variance
pub fn get_e_d(intensity: u64, e2_d2: u64) -> (r: (u64, u128))
    requires
        1 <= intensity,
        1 <= e2_d2,
    ensures
        r.0 as int == spec_mean(intensity as int),
        r.1 as int == spec_variance(r.0 as int, e2_d2 as int),
        r.0 <= MEAN_LIMIT,
        r.1 <= VAR_LIMIT,
        intensity <= SCALE * SCALE ==> 1 <= r.0,
{
    let par_e: u64 = (SCALE * SCALE) / intensity;
    proof {
        assert(SCALE == 1_000_000u64);
        assert(par_e <= MEAN_LIMIT);
        if intensity <= SCALE * SCALE {
            vstd::arithmetic::div_mod::lemma_div_non_zero(
                (SCALE * SCALE) as int,
                intensity as int,
            );
        }
        assert((par_e as u128) * (par_e as u128) <= 1_000_000_000_000_000_000_000_000u128
            && (par_e as u128) * (par_e as u128) * (SCALE as u128)
            <= 1_000_000_000_000_000_000_000_000_000_000u128) by (nonlinear_arith)
            requires 0 <= par_e, par_e <= 1_000_000_000_000u64, SCALE == 1_000_000u64;
    }
    let par_d: u128 = (par_e as u128) * (par_e as u128) * (SCALE as u128) / (e2_d2 as u128);
    proof {
        vstd::arithmetic::div_mod::lemma_div_is_ordered_by_denominator(
            (par_e as int) * (par_e as int) * (SCALE as int),
            1,
            e2_d2 as int,
        );
    }
    (par_e, par_d)
}

/// Half-width of the fitted uniform interval: `sqrt(12 D) / 2` micro-units.
pub open spec fn spec_uniform_half_delta(variance: int) -> int {
    spec_isqrt(12 * variance) / 2
}

/// Fits a uniform distribution on `[E - delta/2, E + delta/2]` with
/// `delta = sqrt(12 D)`, so that its mean is E and its variance D.
/// Returns `None` exactly when the lower bound would be negative, which no
/// holding or inter-arrival time can be.
pub fn uniform_gen_min_max(mean: u64, variance: u128) -> (r: Option<(u64, u64)>)
    requires
        mean <= MEAN_LIMIT,
        variance <= VAR_LIMIT,
    ensures
        r is Some <==> spec_uniform_half_delta(variance as int) <= mean as int,
        r is Some ==> {
            let half = spec_uniform_half_delta(variance as int);
            r == Some(((mean as int - half) as u64, (mean as int + half) as u64))
        },
{
    let delta: u64 = isqrt(12 * variance);
    let half: u64 = delta / 2;
    proof {
        lemma_isqrt(12 * variance as int);
        // the root of anything up to 12 * VAR_LIMIT stays far below u64::MAX / 2
        assert(spec_isqrt(12 * variance as int) <= 4_000_000_000_000_000) by {
            if spec_isqrt(12 * variance as int) > 4_000_000_000_000_000 {
                assert(4_000_000_000_000_001int * 4_000_000_000_000_001int
                    <= spec_isqrt(12 * variance as int) * spec_isqrt(12 * variance as int))
                    by (nonlinear_arith)
                    requires 4_000_000_000_000_001int <= spec_isqrt(12 * variance as int);
            }
        }
    }
    if half > mean {
        None
    } else {
        Some((mean - half, mean + half))
    }
}

/// A fitted Poisson rate hits its target: `lambda` is the reciprocal of
/// the mean, exact up to the fixed-point rounding of the division.  (That
/// the variance equals the squared mean is the fit's acceptance condition
/// itself.)
pub proof fn lemma_poisson_fit_matches_targets(mean: int)
    requires
        1 <= mean,
    ensures
        ({
            let lambda = (SCALE * SCALE) as int / mean;
            &&& lambda * mean <= (SCALE * SCALE) as int
            &&& ((SCALE * SCALE) as int) < (lambda + 1) * mean
        }),
{
    let s2 = (SCALE * SCALE) as int;
    let lambda = s2 / mean;
    vstd::arithmetic::div_mod::lemma_fundamental_div_mod(s2, mean);
    vstd::arithmetic::div_mod::lemma_mod_bound(s2, mean);
    assert(lambda * mean <= s2 && s2 < (lambda + 1) * mean) by (nonlinear_arith)
        requires
            s2 == mean * lambda + s2 % mean,
            0 <= s2 % mean < mean,
    ;
}

/// A fitted Gamma pair hits its target mean: the product of shape and
/// scale brackets `E` up to the fixed-point rounding of the two divisions.
pub proof fn lemma_gamma_fit_matches_targets(mean: int, variance: int)
    requires
        1 <= mean,
        1 <= variance,
    ensures
        ({
            let shape = spec_gamma_shape(mean, variance);
            let scale = spec_gamma_scale(mean, variance);
            &&& shape * scale <= mean * (SCALE as int)
            &&& (mean * (SCALE as int)) < (shape + 1) * (scale + 1)
        }),
{
    let m2s = mean * mean * (SCALE as int);
    let shape = m2s / variance;
    let scale = variance / mean;
    vstd::arithmetic::div_mod::lemma_fundamental_div_mod(m2s, variance);
    vstd::arithmetic::div_mod::lemma_mod_bound(m2s, variance);
    vstd::arithmetic::div_mod::lemma_fundamental_div_mod(variance, mean);
    vstd::arithmetic::div_mod::lemma_mod_bound(variance, mean);
    assert(0 <= m2s) by (nonlinear_arith)
        requires 1 <= mean, m2s == mean * mean * (SCALE as int), SCALE == 1_000_000u64;
    vstd::arithmetic::div_mod::lemma_div_pos_is_pos(m2s, variance);
    vstd::arithmetic::div_mod::lemma_div_pos_is_pos(variance, mean);
    assert(shape * scale * mean <= shape * variance) by (nonlinear_arith)
        requires
            0 <= shape,
            variance == mean * scale + variance % mean,
            0 <= variance % mean,
    ;
    assert(shape * variance <= m2s) by (nonlinear_arith)
        requires
            m2s == variance * shape + m2s % variance,
            0 <= m2s % variance,
    ;
    assert(shape * scale <= mean * (SCALE as int)) by (nonlinear_arith)
        requires
            shape * scale * mean <= m2s,
            m2s == mean * mean * (SCALE as int),
            1 <= mean,
    ;
    assert(m2s < (shape + 1) * variance) by (nonlinear_arith)
        requires
            m2s == variance * shape + m2s % variance,
            m2s % variance < variance,
    ;
    assert(variance < (scale + 1) * mean) by (nonlinear_arith)
        requires
            variance == mean * scale + variance % mean,
            variance % mean < mean,
    ;
    assert(mean * (SCALE as int) < (shape + 1) * (scale + 1)) by (nonlinear_arith)
        requires
            m2s < (shape + 1) * variance,
            variance < (scale + 1) * mean,
            m2s == mean * mean * (SCALE as int),
            1 <= mean,
            0 <= shape,
            0 <= scale,
    ;
}

/// A fitted uniform interval hits its targets: it is centered exactly on
/// the requested mean, and its squared width equals `12 D` up to the
/// integer rounding of the square root — the statistical intent of the
/// fitting formulas, stated over the fitted parameters themselves.
pub proof fn lemma_uniform_fit_matches_targets(mean: int, variance: int)
    requires
        0 <= mean,
        0 <= variance,
        spec_uniform_half_delta(variance) <= mean,
    ensures
        ({
            let half = spec_uniform_half_delta(variance);
            let t_min = mean - half;
            let t_max = mean + half;
            &&& t_min + t_max == 2 * mean
            &&& (t_max - t_min) * (t_max - t_min) <= 12 * variance
            &&& 12 * variance < (t_max - t_min + 2) * (t_max - t_min + 2)
        }),
{
    lemma_isqrt(12 * variance);
    let delta = spec_isqrt(12 * variance);
    let half = delta / 2;
    let w = 2 * half;
    assert(delta - 1 <= w <= delta);
    assert(w * w <= delta * delta) by (nonlinear_arith)
        requires 0 <= w, w <= delta;
    assert((delta + 1) * (delta + 1) <= (w + 2) * (w + 2)) by (nonlinear_arith)
        requires 0 <= delta, delta + 1 <= w + 2;
}

/// The Gamma shape `k = E^2 / D` in micro-units: together with the scale it
/// matches the target mean `k * theta = E` and variance `k * theta^2 = D`.
pub open spec fn spec_gamma_shape(mean: int, variance: int) -> int {
    mean * mean * (SCALE as int) / variance
}

/// The Gamma scale `theta = D / E` in micro-units.
pub open spec fn spec_gamma_scale(mean: int, variance: int) -> int {
    variance / mean
}

/// Fits a Gamma distribution: returns `(shape, scale)` in micro-units.
/// `None` when either parameter rounds to zero or does not fit a 64-bit
/// count of micro-units; a Gamma distribution needs both positive.
pub fn gamma_get_scale_shape(mean: u64, variance: u128) -> (r: Option<(u64, u64)>)
    requires
        1 <= mean,
        mean <= MEAN_LIMIT,
        variance <= VAR_LIMIT,
    ensures
        ({
            let shape = spec_gamma_shape(mean as int, variance as int);
            let scale = spec_gamma_scale(mean as int, variance as int);
            &&& (r is Some <==> 1 <= variance && 1 <= shape <= u64::MAX as int && 1 <= scale
                <= u64::MAX as int)
            &&& r is Some ==> r == Some((shape as u64, scale as u64))
        }),
{
    if variance == 0 {
        return None;
    }
    proof {
        assert((mean as u128) * (mean as u128) <= 1_000_000_000_000_000_000_000_000u128
            && (mean as u128) * (mean as u128) * (SCALE as u128)
            <= 1_000_000_000_000_000_000_000_000_000_000u128) by (nonlinear_arith)
            requires 0 <= mean, mean <= 1_000_000_000_000u64, SCALE == 1_000_000u64;
    }
    let shape_wide: u128 = (mean as u128) * (mean as u128) * (SCALE as u128) / variance;
    let scale_wide: u128 = variance / (mean as u128);
    if shape_wide == 0 || scale_wide == 0 {
        return None;
    }
    if shape_wide > u64::MAX as u128 || scale_wide > u64::MAX as u128 {
        return None;
    }
    Some((shape_wide as u64, scale_wide as u64))
}

/// Largest squared-mean-to-variance ratio the Pareto fit accepts,
/// micro-units.
pub const PARETO_E2_LIMIT: u128 = 10_000_000_000_000_000_000_000;

/// Absolute tolerance of the Pareto round-trip check on the mean,
/// micro-units.
pub const PARETO_TOL_E: u128 = 1_000;

/// Absolute tolerance of the Pareto round-trip check on the variance,
/// micro-units squared.
pub const PARETO_TOL_D: u128 = 1_000_000_000;

/// The ratio `E^2 / D` recovered from the fitted mean and variance,
/// micro-units.
pub open spec fn spec_pareto_e2(mean: int, variance: int) -> int {
    mean * mean * (SCALE as int) / variance
}

/// `sqrt(1 + E^2/D)` in micro-units: one less than the Pareto shape.
pub open spec fn spec_pareto_tmp(mean: int, variance: int) -> int {
    spec_isqrt((SCALE as int + spec_pareto_e2(mean, variance)) * (SCALE as int))
}

/// The Pareto shape `alpha = 1 + sqrt(1 + E^2/D)`, micro-units.
pub open spec fn spec_pareto_alpha(mean: int, variance: int) -> int {
    SCALE as int + spec_pareto_tmp(mean, variance)
}

/// The Pareto scale `x_m = E (alpha - 1) / alpha`, micro-units.
pub open spec fn spec_pareto_xm(mean: int, variance: int) -> int {
    mean * spec_pareto_tmp(mean, variance) / spec_pareto_alpha(mean, variance)
}

/// The mean recovered from the fitted parameters:
/// `x_m alpha / (alpha - 1)`, micro-units.
pub open spec fn spec_pareto_chk_e(mean: int, variance: int) -> int {
    spec_pareto_xm(mean, variance) * spec_pareto_alpha(mean, variance) / spec_pareto_tmp(
        mean,
        variance,
    )
}

/// The variance recovered from the fitted parameters:
/// `x_m^2 alpha / ((alpha - 1)^2 (alpha - 2))`, micro-units squared,
/// evaluated in the same order as the executable code.
pub open spec fn spec_pareto_chk_d(mean: int, variance: int) -> int {
    let tmp = spec_pareto_tmp(mean, variance);
    let alpha = spec_pareto_alpha(mean, variance);
    let xm = spec_pareto_xm(mean, variance);
    xm * xm * (SCALE as int) / tmp * (SCALE as int) / tmp * alpha / (tmp - SCALE as int)
}

/// The Pareto fit succeeds: the shape ratio is representable, the fitted
/// `alpha` exceeds two, `x_m` is positive and the round-trip recovers the
/// targets within tolerance.
pub open spec fn spec_pareto_fits(mean: int, variance: int) -> bool {
    let e2 = spec_pareto_e2(mean, variance);
    let tmp = spec_pareto_tmp(mean, variance);
    let xm = spec_pareto_xm(mean, variance);
    let chk_e = spec_pareto_chk_e(mean, variance);
    let chk_d = spec_pareto_chk_d(mean, variance);
    &&& variance >= 1
    &&& e2 <= PARETO_E2_LIMIT as int
    &&& tmp > SCALE as int
    &&& xm >= 1
    &&& -(PARETO_TOL_E as int) <= chk_e - mean <= PARETO_TOL_E as int
    &&& -(PARETO_TOL_D as int) <= chk_d - variance <= PARETO_TOL_D as int
}

/// Fits a Pareto distribution: returns `(x_m, alpha)` in micro-units.
/// `alpha` solves `1 + sqrt(1 + E^2/D)`; the fit is rejected unless
/// `alpha > 2` (a smaller shape has no finite variance), `x_m > 0`, and
/// recomputing mean and variance from the fitted pair lands within an
/// absolute tolerance of the targets.
pub fn pareto_get_scale_shape(mean: u64, variance: u128) -> (r: Option<(u64, u64)>)
    requires
        1 <= mean,
        mean <= MEAN_LIMIT,
        variance <= VAR_LIMIT,
    ensures
        r is Some <==> spec_pareto_fits(mean as int, variance as int),
        r is Some ==> r == Some(
            (
                spec_pareto_xm(mean as int, variance as int) as u64,
                spec_pareto_alpha(mean as int, variance as int) as u64,
            ),
        ),
{
    if variance == 0 {
        return None;
    }
    proof {
        assert((mean as u128) * (mean as u128) <= 1_000_000_000_000_000_000_000_000u128
            && (mean as u128) * (mean as u128) * (SCALE as u128)
            <= 1_000_000_000_000_000_000_000_000_000_000u128) by (nonlinear_arith)
            requires 0 <= mean, mean <= 1_000_000_000_000u64, SCALE == 1_000_000u64;
    }
    let e2: u128 = (mean as u128) * (mean as u128) * (SCALE as u128) / variance;
    if e2 > PARETO_E2_LIMIT {
        return None;
    }
    proof {
        assert(((SCALE as u128) + e2) * (SCALE as u128)
            <= 20_000_000_000_000_000_000_000_000_000u128) by (nonlinear_arith)
            requires e2 <= 10_000_000_000_000_000_000_000u128, SCALE == 1_000_000u64;
    }
    let base: u128 = ((SCALE as u128) + e2) * (SCALE as u128);
    let tmp: u64 = isqrt(base);
    proof {
        lemma_isqrt(base as int);
        assert(spec_isqrt(base as int) < 110_000_000_000_000) by {
            if spec_isqrt(base as int) >= 110_000_000_000_000 {
                assert(110_000_000_000_000int * 110_000_000_000_000int
                    <= spec_isqrt(base as int) * spec_isqrt(base as int)) by (nonlinear_arith)
                    requires 110_000_000_000_000int <= spec_isqrt(base as int);
            }
        }
    }
    if tmp <= SCALE {
        return None;
    }
    let alpha: u64 = SCALE + tmp;
    proof {
        assert((mean as u128) * (tmp as u128) <= 200_000_000_000_000_000_000_000_000u128)
            by (nonlinear_arith)
            requires 0 <= mean, mean <= 1_000_000_000_000u64, 0 <= tmp, tmp
                < 200_000_000_000_000u64;
    }
    let xm_wide: u128 = (mean as u128) * (tmp as u128) / (alpha as u128);
    proof {
        assert((mean as int) * (tmp as int) <= (mean as int) * (alpha as int))
            by (nonlinear_arith)
            requires 0 <= mean, 0 <= tmp, tmp <= alpha;
        lemma_div_below(mean as int * tmp as int, alpha as int, mean as int);
    }
    let xm: u64 = xm_wide as u64;
    if xm == 0 {
        return None;
    }
    proof {
        assert((xm as u128) * (alpha as u128) <= 200_000_000_000_000_000_000_000_000u128)
            by (nonlinear_arith)
            requires 0 <= xm, xm <= 1_000_000_000_000u64, 0 <= alpha, alpha
                <= 200_000_000_000_000u64;
    }
    let chk_e: u128 = (xm as u128) * (alpha as u128) / (tmp as u128);
    let diff_e: u128 = if chk_e >= mean as u128 {
        chk_e - mean as u128
    } else {
        mean as u128 - chk_e
    };
    if diff_e > PARETO_TOL_E {
        return None;
    }
    proof {
        assert((xm as u128) * (xm as u128) <= 1_000_000_000_000_000_000_000_000u128
            && (xm as u128) * (xm as u128) * (SCALE as u128)
            <= 1_000_000_000_000_000_000_000_000_000_000u128) by (nonlinear_arith)
            requires 0 <= xm, xm <= 1_000_000_000_000u64, SCALE == 1_000_000u64;
    }
    let s1: u128 = (xm as u128) * (xm as u128) * (SCALE as u128);
    let s2: u128 = s1 / (tmp as u128);
    proof {
        vstd::arithmetic::div_mod::lemma_div_is_ordered_by_denominator(
            s1 as int,
            SCALE as int,
            tmp as int,
        );
        vstd::arithmetic::div_mod::lemma_div_is_ordered(
            s1 as int,
            1_000_000_000_000_000_000_000_000_000_000int,
            SCALE as int,
        );
    }
    proof {
        assert(s2 * (SCALE as u128) <= 1_000_000_000_000_000_000_000_000_000_000u128)
            by (nonlinear_arith)
            requires s2 <= 1_000_000_000_000_000_000_000_000u128, SCALE == 1_000_000u64;
    }
    let s3: u128 = s2 * (SCALE as u128);
    let s4: u128 = s3 / (tmp as u128);
    proof {
        vstd::arithmetic::div_mod::lemma_div_is_ordered_by_denominator(
            s3 as int,
            SCALE as int,
            tmp as int,
        );
        vstd::arithmetic::div_mod::lemma_div_is_ordered(
            s3 as int,
            1_000_000_000_000_000_000_000_000_000_000int,
            SCALE as int,
        );
        assert((s4 as u128) * (alpha as u128)
            <= 200_000_000_000_000_000_000_000_000_000_000_000_000u128) by (nonlinear_arith)
            requires
                0 <= s4,
                s4 <= 1_000_000_000_000_000_000_000_000u128,
                0 <= alpha,
                alpha <= 200_000_000_000_000u64,
        ;
    }
    let s5: u128 = s4 * (alpha as u128);
    let chk_d: u128 = s5 / ((tmp - SCALE) as u128);
    let diff_d: u128 = if chk_d >= variance {
        chk_d - variance
    } else {
        variance - chk_d
    };
    if diff_d > PARETO_TOL_D {
        return None;
    }
    Some((xm, alpha))
}

/// `a / b <= c` whenever `a <= c * b` and `b` is positive.
pub proof fn lemma_div_below(a: int, b: int, c: int)
    requires
        0 <= a,
        1 <= b,
        0 <= c,
        a <= c * b,
    ensures
        a / b <= c,
{
    assert(a / b <= c) by (nonlinear_arith)
        requires 0 <= a, 1 <= b, 0 <= c, a <= c * b;
}

} // verus!
