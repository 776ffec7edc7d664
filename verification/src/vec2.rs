//! Plane vectors on the fixed-point grid: an exec vector of two `i64`
//! coordinates, and its mathematical view `GVec` over unbounded integers,
//! which every contract in the crate speaks of.

use vstd::prelude::*;

verus! {

/// A plane vector (or point) with fixed-point coordinates: a coordinate of
/// [`crate::packer::SCALE`] stands for one drawing unit.
#[derive(Clone, Copy, Debug, Default, PartialEq, Eq, Structural)]
pub struct Vec2 {
    pub x: i64,
    pub y: i64,
}

/// The mathematical value of a [`Vec2`]: the same vector over unbounded
/// integers.
pub ghost struct GVec {
    pub x: int,
    pub y: int,
}

impl View for Vec2 {
    type V = GVec;

    open spec fn view(&self) -> GVec {
        GVec { x: self.x as int, y: self.y as int }
    }
}

pub open spec fn gv(x: int, y: int) -> GVec {
    GVec { x, y }
}

pub open spec fn gv_zero() -> GVec {
    GVec { x: 0, y: 0 }
}

pub open spec fn gv_add(a: GVec, b: GVec) -> GVec {
    GVec { x: a.x + b.x, y: a.y + b.y }
}

pub open spec fn gv_sub(a: GVec, b: GVec) -> GVec {
    GVec { x: a.x - b.x, y: a.y - b.y }
}

/// Squared length of a vector; lengths are always compared squared, so no
/// square root is lost to rounding.
pub open spec fn gv_norm_sq(a: GVec) -> int {
    a.x * a.x + a.y * a.y
}

/// Squared distance between two points.
pub open spec fn gv_dist_sq(a: GVec, b: GVec) -> int {
    gv_norm_sq(gv_sub(a, b))
}

/// `v` fits the `i64` grid.
pub open spec fn gv_in_i64(a: GVec) -> bool {
    &&& i64::MIN <= a.x <= i64::MAX
    &&& i64::MIN <= a.y <= i64::MAX
}

/// Both coordinates of `a` have magnitude at most `m`.
pub open spec fn gv_bounded(a: GVec, m: int) -> bool {
    &&& -m <= a.x <= m
    &&& -m <= a.y <= m
}

impl Vec2 {
    pub fn new(x: i64, y: i64) -> (v: Vec2)
        ensures
            v@ == gv(x as int, y as int),
    {
        Vec2 { x, y }
    }

    pub fn zero() -> (v: Vec2)
        ensures
            v@ == gv_zero(),
    {
        Vec2 { x: 0, y: 0 }
    }

    pub fn add(self, other: Vec2) -> (v: Vec2)
        requires
            gv_in_i64(gv_add(self@, other@)),
        ensures
            v@ == gv_add(self@, other@),
    {
        Vec2 { x: self.x + other.x, y: self.y + other.y }
    }

    pub fn sub(self, other: Vec2) -> (v: Vec2)
        requires
            gv_in_i64(gv_sub(self@, other@)),
        ensures
            v@ == gv_sub(self@, other@),
    {
        Vec2 { x: self.x - other.x, y: self.y - other.y }
    }

    pub fn is_zero(self) -> (b: bool)
        ensures
            b == (self@ == gv_zero()),
    {
        let b = self.x == 0 && self.y == 0;
        proof {
            if b {
                assert(self@ == gv_zero());
            }
        }
        b
    }
}

} // verus!
