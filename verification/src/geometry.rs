//! Fixed-point viewport coordinates.

use vstd::prelude::*;

verus! {

/// Ticks in one viewport unit. The viewport spans `[-ONE, ONE]` on both axes.
pub const ONE: i64 = 1_000_000;

/// Ticks in one font pixel: a glyph that is a thousand pixels wide fills one
/// viewport unit.
pub const PIXEL: i64 = 1_000;

/// The nearest coordinate to `v`: `v` itself wherever it fits.
pub open spec fn sat(v: int) -> i64 {
    if v < i64::MIN {
        i64::MIN
    } else if v > i64::MAX {
        i64::MAX
    } else {
        v as i64
    }
}

/// Brings a wide intermediate result back to a coordinate, saturating at the
/// ends of the coordinate range.
pub fn clamp(v: i128) -> (r: i64)
    ensures
        r == sat(v as int),
{
    if v < i64::MIN as i128 {
        i64::MIN
    } else if v > i64::MAX as i128 {
        i64::MAX
    } else {
        v as i64
    }
}

/// A point or an offset in the viewport, in ticks.
#[derive(Clone, Copy, Debug, PartialEq, Eq, Structural)]
pub struct Vector2 {
    pub x: i64,
    pub y: i64,
}

impl Vector2 {
    pub fn new(x: i64, y: i64) -> (v: Self)
        ensures
            v == (Vector2 { x, y }),
    {
        Vector2 { x, y }
    }

    /// The vector with both components equal to `value`.
    pub fn from_value(value: i64) -> (v: Self)
        ensures
            v == (Vector2 { x: value, y: value }),
    {
        Vector2 { x: value, y: value }
    }
}

/// A colour, one channel per component, each in ticks of [`ONE`].
#[derive(Clone, Copy, Debug, PartialEq, Eq, Structural)]
pub struct Vector4 {
    pub x: i64,
    pub y: i64,
    pub z: i64,
    pub w: i64,
}

impl Vector4 {
    pub fn new(x: i64, y: i64, z: i64, w: i64) -> (v: Self)
        ensures
            v == (Vector4 { x, y, z, w }),
    {
        Vector4 { x, y, z, w }
    }

    /// The colour with every channel at zero.
    pub fn zero() -> (v: Self)
        ensures
            v == (Vector4 { x: 0, y: 0, z: 0, w: 0 }),
    {
        Vector4 { x: 0, y: 0, z: 0, w: 0 }
    }
}

} // verus!
