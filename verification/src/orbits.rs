//! The three regimes of a conic orbit, told apart by its eccentricity.
use vstd::prelude::*;
use vstd::arithmetic::power2::{
    lemma2_to64, lemma_pow2_adds, lemma_pow2_pos, lemma_pow2_strictly_increases, pow2,
};
use crate::ieee::Binary64;

verus! {

/// The kind of conic on which a body moves, and with it the equation that
/// gives its place on the orbit.
#[derive(Debug, Clone, Copy, PartialEq, Eq, Structural)]
pub enum OrbitRegime {
    /// A closed orbit: Kepler's equation.
    Elliptical,
    /// An orbit that cannot be told from a parabola: Barker's equation.
    Parabolic,
    /// An open orbit: the hyperbolic form of Kepler's equation.
    Hyperbolic,
}

/// The binary64 datum of value 1.
pub open spec fn one() -> Binary64 {
    Binary64 { bits: 0x3ff0_0000_0000_0000 }
}

/// The binary64 datum nearest to one ten-thousandth: by less than its value
/// the eccentricity of an orbit taken for parabolic differs from 1.
pub open spec fn parabolic_tolerance() -> Binary64 {
    Binary64 { bits: 0x3f1a_36e2_eb1c_432d }
}

/// Whether an eccentricity differs from 1 by less than the tolerance.
pub open spec fn is_near_parabolic(eccentricity: Binary64) -> bool {
    &&& eccentricity.is_finite()
    &&& -parabolic_tolerance().quanta() < eccentricity.quanta() - one().quanta()
        < parabolic_tolerance().quanta()
}

/// The regime of an orbit of the given eccentricity: parabolic within the
/// tolerance of 1, else elliptical below 1, and hyperbolic otherwise.
pub open spec fn regime_of(eccentricity: Binary64) -> OrbitRegime {
    if is_near_parabolic(eccentricity) {
        OrbitRegime::Parabolic
    } else if eccentricity.spec_lt(one()) {
        OrbitRegime::Elliptical
    } else {
        OrbitRegime::Hyperbolic
    }
}

/// The eccentricities within the tolerance of 1 are those whose patterns
/// lie between two bounds, which are the data nearest to 0.9999 and 1.0001.
pub proof fn lemma_near_parabolic_patterns(eccentricity: Binary64)
    ensures
        is_near_parabolic(eccentricity) <==> 0x3fef_ff2e_48e8_a71e <= eccentricity.bits
            <= 0x3ff0_0068_db8b_ac71,
{
    let e = eccentricity;
    let unit = pow2(1008);
    let field = e.exponent_field();
    let fraction = e.fraction_field();
    let q = e.quantum_exponent();
    lemma2_to64();
    lemma_pow2_pos(1008);
    lemma_pow2_pos(q);
    lemma_pow2_adds(1008, 12);
    lemma_pow2_adds(1008, 13);
    lemma_pow2_adds(1008, 14);
    lemma_pow2_adds(1008, 15);
    assert(pow2(1020) == unit * 0x1000);
    assert(pow2(1021) == unit * 0x2000);
    assert(pow2(1022) == unit * 0x4000);
    assert(pow2(1023) == unit * 0x8000);
    let tolerance = parabolic_tolerance().quanta();
    assert(parabolic_tolerance().exponent_field() == 1009);
    assert(parabolic_tolerance().fraction_field() == 0xa_36e2_eb1c_432d);
    assert(tolerance == 0x1a_36e2_eb1c_432d * unit);
    assert(one().exponent_field() == 1023);
    assert(one().fraction_field() == 0);
    assert(one().quanta() == 0x10_0000_0000_0000 * (unit * 0x4000));
    let whole = one().quanta();
    assert(whole == 0x4_0000_0000_0000_0000 * unit) by (nonlinear_arith)
        requires
            whole == 0x10_0000_0000_0000 * (unit * 0x4000),
    ;
    assert(0 < tolerance < 0x20_0000_0000_0000 * unit) by (nonlinear_arith)
        requires
            tolerance == 0x1a_36e2_eb1c_432d * unit,
            0 < unit,
    ;
    let significand = e.significand();
    let absolute = significand * pow2(q);
    assert(0 <= absolute) by (nonlinear_arith)
        requires
            absolute == significand * pow2(q),
            0 <= significand,
            0 < pow2(q),
    ;
    if e.is_negative() {
        assert(e.quanta() <= 0);
        assert(e.quanta() - whole <= -tolerance) by (nonlinear_arith)
            requires
                e.quanta() <= 0,
                whole == 0x4_0000_0000_0000_0000 * unit,
                tolerance < 0x20_0000_0000_0000 * unit,
                0 < unit,
        ;
    } else if !e.is_finite() {
    } else if field >= 1024 {
        if q > 1023 {
            lemma_pow2_strictly_increases(1023, q);
        }
        assert(absolute - whole >= tolerance) by (nonlinear_arith)
            requires
                absolute == significand * pow2(q),
                significand >= 0x10_0000_0000_0000,
                pow2(q) >= unit * 0x8000,
                whole == 0x4_0000_0000_0000_0000 * unit,
                tolerance < 0x20_0000_0000_0000 * unit,
                0 < unit,
        ;
    } else if field == 1023 {
        assert(absolute - whole == fraction * 0x4000 * unit) by (nonlinear_arith)
            requires
                absolute == (0x10_0000_0000_0000 + fraction) * (unit * 0x4000),
                whole == 0x4_0000_0000_0000_0000 * unit,
        ;
        if fraction <= 0x68_db8b_ac71 {
            assert(fraction * 0x4000 * unit < 0x1a_36e2_eb1c_432d * unit) by (nonlinear_arith)
                requires
                    fraction * 0x4000 < 0x1a_36e2_eb1c_432d,
                    0 < unit,
            ;
            assert(0 <= fraction * 0x4000 * unit) by (nonlinear_arith)
                requires
                    0 <= fraction,
                    0 < unit,
            ;
        } else {
            assert(fraction * 0x4000 * unit >= 0x1a_36e2_eb1c_432d * unit) by (nonlinear_arith)
                requires
                    fraction * 0x4000 >= 0x1a_36e2_eb1c_432d,
                    0 < unit,
            ;
        }
    } else if field == 1022 {
        let below = 0x10_0000_0000_0000 - fraction;
        assert(whole - absolute == below * 0x2000 * unit) by (nonlinear_arith)
            requires
                absolute == (0x10_0000_0000_0000 + fraction) * (unit * 0x2000),
                whole == 0x4_0000_0000_0000_0000 * unit,
                below == 0x10_0000_0000_0000 - fraction,
        ;
        if fraction >= 0xf_ff2e_48e8_a71e {
            assert(below * 0x2000 * unit < 0x1a_36e2_eb1c_432d * unit) by (nonlinear_arith)
                requires
                    below * 0x2000 < 0x1a_36e2_eb1c_432d,
                    0 < unit,
            ;
            assert(0 <= below * 0x2000 * unit) by (nonlinear_arith)
                requires
                    0 <= below,
                    0 < unit,
            ;
        } else {
            assert(below * 0x2000 * unit >= 0x1a_36e2_eb1c_432d * unit) by (nonlinear_arith)
                requires
                    below * 0x2000 >= 0x1a_36e2_eb1c_432d,
                    0 < unit,
            ;
        }
    } else {
        if q < 1020 {
            lemma_pow2_strictly_increases(q, 1020);
        }
        assert(absolute - whole <= -tolerance) by (nonlinear_arith)
            requires
                absolute == significand * pow2(q),
                0 <= significand < 0x20_0000_0000_0000,
                0 < pow2(q) <= unit * 0x1000,
                whole == 0x4_0000_0000_0000_0000 * unit,
                tolerance < 0x20_0000_0000_0000 * unit,
                0 < unit,
        ;
    }
}

/// The regime of an orbit of the given eccentricity.
pub fn orbit_regime(eccentricity: Binary64) -> (regime: OrbitRegime)
    ensures
        regime == regime_of(eccentricity),
{
    proof {
        lemma_near_parabolic_patterns(eccentricity);
    }
    if 0x3fef_ff2e_48e8_a71e <= eccentricity.bits && eccentricity.bits <= 0x3ff0_0068_db8b_ac71 {
        OrbitRegime::Parabolic
    } else if eccentricity.lt(Binary64 { bits: 0x3ff0_0000_0000_0000 }) {
        OrbitRegime::Elliptical
    } else {
        OrbitRegime::Hyperbolic
    }
}

} // verus!
