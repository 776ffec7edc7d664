//! The circle entity: a point mass with a fixed radius, a velocity that
//! persists across ticks, and a force accumulator that one tick fills and
//! integration drains.

use vstd::prelude::*;

verus! {

use crate::num::{lemma_sqrt_floor_exists, sqrt_floor};
use crate::vec2::{gv_add, gv_bounded, gv_dist_sq, gv_in_i64, gv_zero, GVec, Vec2};
use crate::ConfigError;

/// Largest coordinate magnitude the per-tick arithmetic accepts; generous
/// enough for any drawing, small enough that every product of the force
/// formulas fits an `i64`.
pub const COORD_LIMIT: i64 = 1_000_000_000;

/// A circle with a mutable center, a velocity, and a force accumulator.
/// The radius is fixed at construction and never zero.
#[derive(Clone, Copy, Debug, Default, PartialEq, Eq, Structural)]
pub struct Circle {
    pub xy: Vec2,
    pub radius: i64,
    pub velocity: Vec2,
    pub acceleration: Vec2,
}

/// The mathematical value of a [`Circle`], over unbounded integers.
pub ghost struct GCircle {
    pub xy: GVec,
    pub radius: int,
    pub velocity: GVec,
    pub acceleration: GVec,
}

impl View for Circle {
    type V = GCircle;

    open spec fn view(&self) -> GCircle {
        GCircle {
            xy: self.xy@,
            radius: self.radius as int,
            velocity: self.velocity@,
            acceleration: self.acceleration@,
        }
    }
}

/// A circle the tick arithmetic accepts: positive radius and every component
/// within [`COORD_LIMIT`].
pub open spec fn circle_in_bounds(c: GCircle) -> bool {
    &&& 0 < c.radius <= COORD_LIMIT
    &&& gv_bounded(c.xy, COORD_LIMIT as int)
    &&& gv_bounded(c.velocity, COORD_LIMIT as int)
    &&& gv_bounded(c.acceleration, COORD_LIMIT as int)
}

/// Two circles overlap when their squared center distance is below the
/// square of their combined radii.
pub open spec fn overlaps_spec(a: GCircle, b: GCircle) -> bool {
    gv_dist_sq(a.xy, b.xy) < (a.radius + b.radius) * (a.radius + b.radius)
}

/// Adding `f` to the force accumulator.
pub open spec fn apply_force_spec(c: GCircle, f: GVec) -> GCircle {
    GCircle { acceleration: gv_add(c.acceleration, f), ..c }
}

/// Semi-implicit Euler step: the accumulated force joins the velocity, the
/// velocity moves the center, and the accumulator is drained.
pub open spec fn integrate_spec(c: GCircle) -> GCircle {
    let v = gv_add(c.velocity, c.acceleration);
    GCircle { xy: gv_add(c.xy, v), radius: c.radius, velocity: v, acceleration: gv_zero() }
}

/// `0 <= x * x <= m * m` whenever `|x| <= m`.
pub proof fn lemma_sq_bound(x: int, m: int)
    requires
        -m <= x <= m,
    ensures
        0 <= x * x <= m * m,
{
    assert(0 <= x * x <= m * m) by (nonlinear_arith)
        requires
            -m <= x <= m,
    ;
}

impl Circle {
    /// Builds a circle at rest. A zero radius is rejected: overlap testing
    /// and the separation force are meaningless for a degenerate circle.
    pub fn new(xy: Vec2, radius: i64) -> (r: Result<Circle, ConfigError>)
        ensures
            r == if radius == 0 {
                Err::<Circle, ConfigError>(ConfigError::ZeroRadius)
            } else {
                Ok::<Circle, ConfigError>(
                    Circle { xy, radius, velocity: Vec2 { x: 0, y: 0 }, acceleration: Vec2 { x: 0, y: 0 } },
                )
            },
    {
        if radius == 0 {
            Err(ConfigError::ZeroRadius)
        } else {
            Ok(Circle::make(xy, radius))
        }
    }

    /// Builds a circle at rest from an already validated radius.
    pub(crate) fn make(xy: Vec2, radius: i64) -> (c: Circle)
        requires
            radius != 0,
        ensures
            c == (Circle {
                xy,
                radius,
                velocity: Vec2 { x: 0, y: 0 },
                acceleration: Vec2 { x: 0, y: 0 },
            }),
    {
        Circle { xy, radius, velocity: Vec2 { x: 0, y: 0 }, acceleration: Vec2 { x: 0, y: 0 } }
    }

    /// Overlap test by squared center distance, exact on the integer grid.
    pub fn overlaps(&self, other: &Self) -> (b: bool)
        requires
            gv_bounded(self@.xy, COORD_LIMIT as int),
            gv_bounded(other@.xy, COORD_LIMIT as int),
            -COORD_LIMIT <= self.radius <= COORD_LIMIT,
            -COORD_LIMIT <= other.radius <= COORD_LIMIT,
        ensures
            b == overlaps_spec(self@, other@),
    {
        let dx: i64 = self.xy.x - other.xy.x;
        let dy: i64 = self.xy.y - other.xy.y;
        let combined_radius: i64 = self.radius + other.radius;
        proof {
            lemma_sq_bound(dx as int, 2 * COORD_LIMIT as int);
            lemma_sq_bound(dy as int, 2 * COORD_LIMIT as int);
            lemma_sq_bound(combined_radius as int, 2 * COORD_LIMIT as int);
        }
        dx * dx + dy * dy < combined_radius * combined_radius
    }

    /// Adds `force` into the accumulator; contributions within one tick sum.
    pub fn apply_force(&mut self, force: Vec2)
        requires
            gv_in_i64(gv_add(old(self)@.acceleration, force@)),
        ensures
            final(self)@ == apply_force_spec(old(self)@, force@),
    {
        self.acceleration = self.acceleration.add(force);
    }

    /// One integration step; see [`integrate_spec`].
    pub fn update(&mut self)
        requires
            gv_in_i64(gv_add(old(self)@.velocity, old(self)@.acceleration)),
            gv_in_i64(
                gv_add(old(self)@.xy, gv_add(old(self)@.velocity, old(self)@.acceleration)),
            ),
        ensures
            final(self)@ == integrate_spec(old(self)@),
    {
        self.velocity = self.velocity.add(self.acceleration);
        self.xy = self.xy.add(self.velocity);
        self.acceleration = Vec2 { x: 0, y: 0 };
    }
}

/// Overlap is symmetric: `a` overlaps `b` exactly when `b` overlaps `a`.
pub proof fn lemma_overlaps_symmetric(a: GCircle, b: GCircle)
    ensures
        overlaps_spec(a, b) == overlaps_spec(b, a),
{
    let px = a.xy.x - b.xy.x;
    let py = a.xy.y - b.xy.y;
    assert(px * px == (-px) * (-px) && py * py == (-py) * (-py)) by (nonlinear_arith);
    assert(gv_dist_sq(a.xy, b.xy) == gv_dist_sq(b.xy, a.xy));
}

/// Coincident circles of positive radius always overlap.
pub proof fn lemma_overlaps_coincident(a: GCircle, b: GCircle)
    requires
        a.xy == b.xy,
        a.radius > 0,
        b.radius > 0,
    ensures
        overlaps_spec(a, b),
{
    assert(gv_dist_sq(a.xy, b.xy) == 0);
    assert((a.radius + b.radius) * (a.radius + b.radius) > 0) by (nonlinear_arith)
        requires
            a.radius > 0 && b.radius > 0,
    ;
}

/// Circles whose center distance exceeds their combined radii do not
/// overlap.
pub proof fn lemma_overlaps_separated(a: GCircle, b: GCircle)
    requires
        a.radius > 0,
        b.radius > 0,
        sqrt_floor(gv_dist_sq(a.xy, b.xy)) > a.radius + b.radius,
    ensures
        !overlaps_spec(a, b),
{
    let px = a.xy.x - b.xy.x;
    let py = a.xy.y - b.xy.y;
    assert(px * px >= 0 && py * py >= 0) by (nonlinear_arith);
    let dsq = gv_dist_sq(a.xy, b.xy);
    let s = a.radius + b.radius;
    lemma_sqrt_floor_exists(dsq);
    let d = sqrt_floor(dsq);
    assert(d * d > s * s) by (nonlinear_arith)
        requires
            d > s,
            s > 0,
    ;
}

/// Integration is linear in the applied forces: applying `f1` then `f2` and
/// integrating once equals applying `f1 + f2` and integrating once.
pub proof fn lemma_integration_linearity(c: GCircle, f1: GVec, f2: GVec)
    ensures
        integrate_spec(apply_force_spec(apply_force_spec(c, f1), f2)) == integrate_spec(
            apply_force_spec(c, gv_add(f1, f2)),
        ),
{
}

/// A circle with an empty force accumulator keeps its velocity and drifts by
/// exactly that velocity when integrated.
pub proof fn lemma_zero_force_integration(c: GCircle)
    requires
        c.acceleration == gv_zero(),
    ensures
        integrate_spec(c).velocity == c.velocity,
        integrate_spec(c).xy == gv_add(c.xy, c.velocity),
        integrate_spec(c).acceleration == gv_zero(),
{
}

} // verus!
