//! Exact cubic Hermite basis for the position interpolator.
//!
//! The interpolator blends the bracketing poses at `p = elapsed / span` with
//! the basis
//! `start*(2p^3-3p^2+1) + end*(-2p^3+3p^2) + sv*(p^3-2p^2+p) + ev*(p^3-p^2)`,
//! where `sv` and `ev` are the endpoint velocities scaled by the span.  With
//! `p = e/s` every basis value is a rational with denominator `s^3`, so this
//! module computes the four numerators and the shared denominator exactly in
//! integers.  Only the final multiply with the float pose components happens
//! outside the library, in the embedding.

use vstd::prelude::*;

verus! {

/// Largest bracket span (milliseconds) the basis accepts: the cube of any
/// span up to it, times a basis coefficient, fits comfortably in an `i128`.
/// 2^41 milliseconds is about 70 years between two snapshots.
pub const MAX_BRACKET_SPAN_MILLIS: u64 = 2199023255552;

/// Numerator of the start-position basis `2p^3 - 3p^2 + 1` at `p = e/s`,
/// over denominator `s^3`.
pub open spec fn start_position_basis(e: int, s: int) -> int {
    2 * (e * e * e) - 3 * (e * e * s) + (s * s * s)
}

/// Numerator of the end-position basis `-2p^3 + 3p^2` at `p = e/s`.
pub open spec fn end_position_basis(e: int, s: int) -> int {
    3 * (e * e * s) - 2 * (e * e * e)
}

/// Numerator of the start-velocity basis `p^3 - 2p^2 + p` at `p = e/s`.
pub open spec fn start_velocity_basis(e: int, s: int) -> int {
    (e * e * e) - 2 * (e * e * s) + (e * s * s)
}

/// Numerator of the end-velocity basis `p^3 - p^2` at `p = e/s`.
pub open spec fn end_velocity_basis(e: int, s: int) -> int {
    (e * e * e) - (e * e * s)
}

/// The four Hermite basis values at one interpolation fraction, as exact
/// rationals over one shared positive denominator.
#[derive(Clone, Copy, PartialEq, Eq, Structural, Debug)]
pub struct HermiteWeights {
    pub start_position: i128,
    pub end_position: i128,
    pub start_velocity: i128,
    pub end_velocity: i128,
    pub denominator: i128,
}

/// At the bracket boundaries the basis collapses exactly onto one endpoint:
/// at `e = 0` the start position carries the whole weight and every other
/// basis value is zero, and at `e = s` the end position does; and at every
/// fraction the two position weights sum to the denominator, so the blend of
/// equal endpoints reproduces them exactly.
pub proof fn lemma_hermite_boundaries(e: int, s: int)
    requires
        0 <= e <= s,
    ensures
        start_position_basis(e, s) + end_position_basis(e, s) == s * s * s,
        e == 0 ==> start_position_basis(e, s) == s * s * s,
        e == 0 ==> end_position_basis(e, s) == 0,
        e == 0 ==> start_velocity_basis(e, s) == 0,
        e == 0 ==> end_velocity_basis(e, s) == 0,
        e == s ==> end_position_basis(e, s) == s * s * s,
        e == s ==> start_position_basis(e, s) == 0,
        e == s ==> start_velocity_basis(e, s) == 0,
        e == s ==> end_velocity_basis(e, s) == 0,
{
    if e == 0 {
        assert(start_position_basis(0, s) == s * s * s) by (nonlinear_arith);
        assert(end_position_basis(0, s) == 0) by (nonlinear_arith);
        assert(start_velocity_basis(0, s) == 0) by (nonlinear_arith);
        assert(end_velocity_basis(0, s) == 0) by (nonlinear_arith);
    }
    if e == s {
        assert(start_position_basis(s, s) == 0) by (nonlinear_arith);
        assert(end_position_basis(s, s) == s * s * s) by (nonlinear_arith);
        assert(start_velocity_basis(s, s) == 0) by (nonlinear_arith);
        assert(end_velocity_basis(s, s) == 0) by (nonlinear_arith);
    }
}

/// Computes the exact Hermite basis at fraction `elapsed / span`.
///
/// A degenerate zero span is clamped to fraction zero (weights `1/1` on the
/// start position) rather than dividing by zero.
pub fn hermite_basis(elapsed: u64, span: u64) -> (w: HermiteWeights)
    requires
        elapsed <= span,
        span <= MAX_BRACKET_SPAN_MILLIS,
    ensures
        w.denominator > 0,
        span == 0 ==> w == (HermiteWeights {
            start_position: 1,
            end_position: 0,
            start_velocity: 0,
            end_velocity: 0,
            denominator: 1,
        }),
        span > 0 ==> {
            &&& w.denominator == span * span * span
            &&& w.start_position == start_position_basis(elapsed as int, span as int)
            &&& w.end_position == end_position_basis(elapsed as int, span as int)
            &&& w.start_velocity == start_velocity_basis(elapsed as int, span as int)
            &&& w.end_velocity == end_velocity_basis(elapsed as int, span as int)
        },
        w.start_position + w.end_position == w.denominator,
        elapsed == 0 ==> w.start_position == w.denominator && w.end_position == 0
            && w.start_velocity == 0 && w.end_velocity == 0,
        elapsed == span && span > 0 ==> w.end_position == w.denominator && w.start_position == 0
            && w.start_velocity == 0 && w.end_velocity == 0,
{
    if span == 0 {
        return HermiteWeights {
            start_position: 1,
            end_position: 0,
            start_velocity: 0,
            end_velocity: 0,
            denominator: 1,
        };
    }
    let e: i128 = elapsed as i128;
    let s: i128 = span as i128;
    proof {
        assert(0 <= e * e <= s * s && s * s <= 4835703278458516698824704) by (nonlinear_arith)
            requires
                0 <= e <= s,
                s <= 2199023255552,
        ;
    }
    let e2: i128 = e * e;
    let s2: i128 = s * s;
    proof {
        assert(0 <= e2 <= e * s && e * s <= s2) by (nonlinear_arith)
            requires
                0 <= e <= s,
                e2 == e * e,
                s2 == s * s,
        ;
        assert(0 <= e2 * e <= s2 * s && 0 <= e2 * s <= s2 * s && 0 <= e * s2 <= s2 * s)
            by (nonlinear_arith)
            requires
                0 <= e <= s,
                0 <= e2 <= s2,
                e2 <= e * s,
                e * s <= s2,
        ;
        assert(s2 * s <= 10633823966279326983230456482242756608) by (nonlinear_arith)
            requires
                0 <= s <= 2199023255552,
                0 <= s2 <= 4835703278458516698824704,
        ;
    }
    let e3: i128 = e2 * e;
    let s3: i128 = s2 * s;
    let e2s: i128 = e2 * s;
    let es2: i128 = e * s2;
    let start_position: i128 = 2 * e3 - 3 * e2s + s3;
    let end_position: i128 = 3 * e2s - 2 * e3;
    let start_velocity: i128 = e3 - 2 * e2s + es2;
    let end_velocity: i128 = e3 - e2s;
    proof {
        assert(e3 == e * e * e && s3 == s * s * s && e2s == e * e * s && es2 == e * s * s
            && s3 > 0) by (nonlinear_arith)
            requires
                1 <= s,
                e2 == e * e,
                s2 == s * s,
                e3 == e2 * e,
                s3 == s2 * s,
                e2s == e2 * s,
                es2 == e * s2,
        ;
        lemma_hermite_boundaries(e as int, s as int);
    }
    HermiteWeights { start_position, end_position, start_velocity, end_velocity, denominator: s3 }
}

} // verus!
