//! Force-directed circle packing over exact fixed-point coordinates.
//!
//! All geometry lives on an integer grid: a coordinate of `1000` stands for
//! one drawing unit, so positions, velocities and forces can be compared and
//! combined exactly, with no rounding surprises in the contracts.

use vstd::prelude::*;

pub mod circle;
pub mod interval;
pub mod num;
pub mod packer;
pub mod rng;
pub mod vec2;

verus! {

use crate::num::{div_t, div_trunc};
use std::ops::Range;

/// A rejected configuration: the reason a constructor refused its inputs.
#[derive(Clone, Copy, Debug, PartialEq, Eq, Structural)]
pub enum ConfigError {
    /// A circle radius of zero was given.
    ZeroRadius,
    /// The lower radius bound is zero or negative.
    NonPositiveMinRadius,
    /// The radius range `[min_radius, max_radius)` is empty.
    EmptyRadiusRange,
    /// The start-position variance is negative.
    NegativeVariance,
    /// A bounding width or height is zero or negative.
    NonPositiveBounds,
}

/// Wraps the coordinates `(x, y)` into a `width * height` grid, moving one
/// full period right and down first, and returns the row-major index of the
/// wrapped cell.
pub fn get_wrapping_index(x: isize, y: isize, width: usize, height: usize) -> (idx: usize)
    requires
        0 < width <= isize::MAX,
        0 < height <= isize::MAX,
        0 <= x + width <= isize::MAX,
        0 <= y + height <= isize::MAX,
        width * height <= usize::MAX,
    ensures
        idx == ((y + height) % (height as int)) * width + ((x + width) % (width as int)),
{
    let xw: usize = (x + width as isize) as usize;
    let yh: usize = (y + height as isize) as usize;
    let row: usize = yh % height;
    let col: usize = xw % width;
    proof {
        assert(row * width + col < width * height) by (nonlinear_arith)
            requires
                row < height,
                col < width,
                0 < width,
                0 < height,
        ;
    }
    row * width + col
}

/// Maps `t` linearly from `range_a` onto `range_b`, with the slope taken as
/// an integer quotient: `range_b.start + slope * (t - range_a.start)` where
/// `slope` is the truncating quotient of the two range widths.
pub fn map_t_of_range_a_to_range_b(t: i64, range_a: Range<i64>, range_b: Range<i64>) -> (r: i64)
    requires
        range_a.end != range_a.start,
        i64::MIN < range_a.end - range_a.start <= i64::MAX,
        i64::MIN < range_b.end - range_b.start <= i64::MAX,
        i64::MIN < t - range_a.start <= i64::MAX,
        i64::MIN <= div_t(range_b.end - range_b.start, range_a.end - range_a.start) * (t
            - range_a.start) <= i64::MAX,
        i64::MIN <= range_b.start + div_t(
            range_b.end - range_b.start,
            range_a.end - range_a.start,
        ) * (t - range_a.start) <= i64::MAX,
    ensures
        r == range_b.start + div_t(range_b.end - range_b.start, range_a.end - range_a.start) * (
        t - range_a.start),
{
    let slope = div_trunc(range_b.end - range_b.start, range_a.end - range_a.start);
    range_b.start + slope * (t - range_a.start)
}

} // verus!
