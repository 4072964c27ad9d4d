//! Fixed-point normalization of raw analog axis samples.
//!
//! An axis value is a signed fixed-point number scaled by [`ANALOG_ONE`]:
//! `-ANALOG_ONE` stands for full negative deflection, `0` for center and
//! `ANALOG_ONE` for full positive deflection.  A raw sample is normalized
//! against the axis's native reporting range `(min, max)` by
//! `((raw - min) / (max - min) - 1/2) * 2`, carried out exactly over the
//! fixed-point scale.
use vstd::prelude::*;

verus! {

use vstd::arithmetic::div_mod::lemma_basic_div;
use vstd::arithmetic::div_mod::lemma_div_is_ordered;
use vstd::arithmetic::div_mod::lemma_div_multiples_vanish;
use vstd::arithmetic::div_mod::lemma_div_multiples_vanish_fancy;
use vstd::arithmetic::div_mod::lemma_div_pos_is_pos;
use vstd::arithmetic::div_mod::lemma_fundamental_div_mod;
use vstd::arithmetic::div_mod::lemma_mod_bound;

/// The fixed-point representation of 1.0.
pub const ANALOG_ONE: i32 = 32768;

/// `raw` clamped into the axis's native range.
pub open spec fn spec_clamp(raw: int, min: int, max: int) -> int {
    if raw < min {
        min
    } else if raw > max {
        max
    } else {
        raw
    }
}

/// The normalized fixed-point value of a raw sample: the clamped sample's
/// position within `(min, max)` rescaled to `[-ANALOG_ONE, ANALOG_ONE]`.
pub open spec fn spec_normalize(raw: int, min: int, max: int) -> int {
    (spec_clamp(raw, min, max) - min) * 65536 / (max - min) - 32768
}

/// Normalize one raw axis sample against its native reporting range.
pub fn normalize(raw: i32, min: i32, max: i32) -> (r: i32)
    requires
        min < max,
    ensures
        r == spec_normalize(raw as int, min as int, max as int),
        -32768 <= r <= 32768,
{
    let clamped: i32 = if raw < min {
        min
    } else if raw > max {
        max
    } else {
        raw
    };
    let offset: u64 = ((clamped as i64) - (min as i64)) as u64;
    let span: u64 = ((max as i64) - (min as i64)) as u64;
    let scaled: u64 = offset * 65536;
    let quotient: u64 = scaled / span;
    proof {
        lemma_scaled_quotient_bounds(offset as int, span as int);
    }
    ((quotient as i64) - 32768) as i32
}

/// The quotient of the rescaling step stays within one full scale:
/// an offset inside the span rescales into `[0, 2 * ANALOG_ONE]`.
proof fn lemma_scaled_quotient_bounds(offset: int, span: int)
    requires
        0 < span,
        0 <= offset <= span,
    ensures
        0 <= offset * 65536 / span <= 65536,
{
    lemma_div_is_ordered(0, offset * 65536, span);
    assert(offset * 65536 <= span * 65536) by (nonlinear_arith)
        requires offset <= span;
    lemma_div_is_ordered(offset * 65536, span * 65536, span);
    lemma_div_multiples_vanish(65536, span);
    assert(span * 65536 == 65536 * span) by (nonlinear_arith);
}

/// A sample at the bottom of the range normalizes to exactly `-ANALOG_ONE`,
/// and one at the top to exactly `ANALOG_ONE`.
pub proof fn lemma_normalize_extremes(min: int, max: int)
    requires
        min < max,
    ensures
        spec_normalize(min, min, max) == -32768,
        spec_normalize(max, min, max) == 32768,
{
    lemma_basic_div(0, max - min);
    lemma_div_multiples_vanish(65536, max - min);
    assert((max - min) * 65536 == 65536 * (max - min)) by (nonlinear_arith);
}

/// A sample at the exact midpoint of an even-width range normalizes to
/// exactly `0`.  (An odd-width range has no integer midpoint; see
/// [`lemma_normalize_midpoint_odd`] for how close its floored midpoint
/// comes.)
pub proof fn lemma_normalize_midpoint(min: int, max: int)
    requires
        min < max,
        (max - min) % 2 == 0,
    ensures
        spec_normalize((min + max) / 2, min, max) == 0,
{
    let span = max - min;
    let mid = (min + max) / 2;
    assert(mid - min == span / 2);
    assert(span / 2 * 65536 == span * 32768) by (nonlinear_arith)
        requires span % 2 == 0;
    lemma_div_multiples_vanish(32768, span);
    assert(span * 32768 == 32768 * span) by (nonlinear_arith);
    assert(min <= mid <= max);
}

/// An odd-width range has no integer midpoint; the sample just below it
/// normalizes to within one quotient step of exact center: no further from
/// `0` than `32768 / (max - min) + 1`, and never past it.  (The widest
/// deviation comes with the narrowest ranges, exactly as it does under the
/// backing formula's rounding.)
pub proof fn lemma_normalize_midpoint_odd(min: int, max: int)
    requires
        min < max,
        (max - min) % 2 == 1,
    ensures
        -(32768int / (max - min)) - 1 <= spec_normalize((min + max) / 2, min, max) <= 0,
{
    let span = max - min;
    let h = span / 2;
    lemma_fundamental_div_mod(span, 2);
    assert(span == 2 * h + 1);
    // the floored midpoint sits h above the bottom of the range
    assert(2 * min + span == 2 * (min + h) + 1) by (nonlinear_arith)
        requires span == 2 * h + 1;
    lemma_div_multiples_vanish_fancy(min + h, 1, 2);
    let mid = (min + max) / 2;
    assert(min + max == 2 * min + span);
    assert(mid == min + h);
    assert(min <= mid <= max);
    // the scaled offset falls one half-scale short of span half-scales
    assert((mid - min) * 65536 == span * 32768 - 32768) by (nonlinear_arith)
        requires mid - min == h && span == 2 * h + 1;
    let q = 32768int / span;
    let r = 32768int % span;
    lemma_fundamental_div_mod(32768int, span);
    lemma_mod_bound(32768int, span);
    lemma_div_pos_is_pos(32768int, span);
    if r == 0 {
        assert(span * 32768 - 32768 == span * (32768 - q) + 0) by (nonlinear_arith)
            requires 32768 == span * q + r && r == 0;
        lemma_div_multiples_vanish_fancy(32768 - q, 0, span);
        assert(spec_normalize(mid, min, max) == -q);
    } else {
        assert(span * 32768 - 32768 == span * (32768 - q - 1) + (span - r)) by (nonlinear_arith)
            requires 32768 == span * q + r;
        lemma_div_multiples_vanish_fancy(32768 - q - 1, span - r, span);
        assert(spec_normalize(mid, min, max) == -q - 1);
    }
}

} // verus!
