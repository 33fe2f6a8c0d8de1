//! Deriving rasterization pixel scales and vertical offsets from the device
//! pixel ratio, a point size, and a per-font tweak. All quantities are in
//! thousandths, every derivation is exact integer arithmetic, and every
//! function here is total and deterministic, so equal inputs always yield
//! equal cache keys.

use vstd::prelude::*;

use crate::font_types::FontTweak;

verus! {

/// Device pixel ratios are accepted strictly between 0 and 100; in
/// thousandths, strictly below this bound.
pub const MAX_PIXELS_PER_POINT_MILLI: u32 = 100000;

/// The pixel scale for a point size: the product of the device pixel ratio
/// and the size, rounded to the nearest whole pixel. Rounding to whole
/// pixels collapses nearby sizes onto one rasterization and keeps kerning
/// even.
pub open spec fn pixel_scale_of(ppp_milli: int, size_milli: int) -> int {
    (ppp_milli * size_milli + 500000) / 1000000
}

/// A pixel scale refined by a font's own scale tweak, rounded to the nearest
/// whole pixel and saturating at `u32::MAX`.
pub open spec fn effective_scale_of(scale_px: int, tweak_scale_milli: int) -> int {
    let raw = (scale_px * tweak_scale_milli + 500) / 1000;
    if raw > u32::MAX {
        u32::MAX as int
    } else {
        raw
    }
}

/// A whole-pixel scale converted back to thousandths of a point.
pub open spec fn points_milli_of(px: int, ppp_milli: int) -> int {
    px * 1000000 / ppp_milli
}

/// Clamp into the range of `i64`.
pub open spec fn clamp_i64(x: int) -> int {
    if x > i64::MAX {
        i64::MAX as int
    } else if x < i64::MIN {
        i64::MIN as int
    } else {
        x
    }
}

/// The vertical offset, in thousandths of a point, that a font drawn at
/// `eff_px` whole pixels gets from its tweak: the offset factor applied to
/// the effective size in points, plus the fixed offset.
pub open spec fn y_offset_milli_of(eff_px: int, ppp_milli: int, tweak: FontTweak) -> int {
    let pts = points_milli_of(eff_px, ppp_milli);
    let scaled = if tweak.y_offset_factor_milli >= 0 {
        pts * tweak.y_offset_factor_milli / 1000
    } else {
        -(pts * -(tweak.y_offset_factor_milli as int) / 1000)
    };
    clamp_i64(scaled + tweak.y_offset_milli)
}

/// Rounds the device pixel ratio times the point size to whole pixels.
pub fn pixel_scale(ppp_milli: u32, size_milli: u32) -> (r: u32)
    requires
        ppp_milli < MAX_PIXELS_PER_POINT_MILLI,
    ensures
        r == pixel_scale_of(ppp_milli as int, size_milli as int),
{
    proof {
        assert((ppp_milli as int) * (size_milli as int) <= 99999int * (u32::MAX as int))
            by (nonlinear_arith)
            requires
                ppp_milli <= 99999,
                size_milli <= u32::MAX,
        ;
        assert((ppp_milli as int) * (size_milli as int) >= 0) by (nonlinear_arith);
    }
    let prod: u64 = (ppp_milli as u64) * (size_milli as u64);
    ((prod + 500000) / 1000000) as u32
}

/// Refines a pixel scale by a font's scale tweak, saturating at `u32::MAX`.
pub fn effective_scale(scale_px: u32, tweak_scale_milli: u32) -> (r: u32)
    ensures
        r == effective_scale_of(scale_px as int, tweak_scale_milli as int),
{
    proof {
        assert((scale_px as int) * (tweak_scale_milli as int) <= (u32::MAX as int) * (
        u32::MAX as int)) by (nonlinear_arith)
            requires
                scale_px <= u32::MAX,
                tweak_scale_milli <= u32::MAX,
        ;
        assert((scale_px as int) * (tweak_scale_milli as int) >= 0) by (nonlinear_arith);
    }
    let raw: u64 = ((scale_px as u64) * (tweak_scale_milli as u64) + 500) / 1000;
    if raw > u32::MAX as u64 {
        u32::MAX
    } else {
        raw as u32
    }
}

/// The tweak-derived vertical offset for a font rasterized at `eff_px` whole
/// pixels under the given device pixel ratio.
pub fn y_offset_points_milli(eff_px: u32, ppp_milli: u32, tweak: &FontTweak) -> (r: i64)
    requires
        0 < ppp_milli,
    ensures
        r == y_offset_milli_of(eff_px as int, ppp_milli as int, *tweak),
{
    let pts: u64 = ((eff_px as u64) * 1000000) / (ppp_milli as u64);
    let factor_abs: u64 = if tweak.y_offset_factor_milli >= 0 {
        tweak.y_offset_factor_milli as u64
    } else {
        (-(tweak.y_offset_factor_milli as i64)) as u64
    };
    proof {
        assert((pts as int) * (factor_abs as int) <= (u64::MAX as int) * 0x80000000int)
            by (nonlinear_arith)
            requires
                pts <= u64::MAX,
                factor_abs <= 0x80000000,
        ;
        assert((pts as int) * (factor_abs as int) >= 0) by (nonlinear_arith);
    }
    let mag: u128 = ((pts as u128) * (factor_abs as u128)) / 1000;
    let scaled: i128 = if tweak.y_offset_factor_milli >= 0 {
        mag as i128
    } else {
        -(mag as i128)
    };
    let sum: i128 = scaled + (tweak.y_offset_milli as i128);
    if sum > i64::MAX as i128 {
        i64::MAX
    } else if sum < i64::MIN as i128 {
        i64::MIN
    } else {
        sum as i64
    }
}

} // verus!
