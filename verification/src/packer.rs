//! The packer: owner of the circle collection and the per-tick relaxation
//! pass. One tick walks the circles in ascending index order and, for each
//! index in turn, reflects at the rectangle edges, zeroes the velocity of
//! circles with no higher-indexed overlapping neighbor, accumulates pairwise
//! separation forces, and integrates that circle immediately — so circles
//! processed later see earlier circles already moved (a sequential,
//! Gauss-Seidel-style sweep, which is part of the observable behavior).

use vstd::prelude::*;

verus! {

use crate::circle::{
    apply_force_spec, circle_in_bounds, integrate_spec, lemma_sq_bound, overlaps_spec, Circle,
    GCircle, COORD_LIMIT,
};
use crate::num::{
    div_t, div_trunc, isqrt, lemma_div_t_bound, lemma_sqrt_floor_dominates, sqrt_floor,
};
use crate::rng::{rand_range, rng_from_seed};
use vstd::math::abs;
use crate::vec2::{gv, gv_add, gv_bounded, gv_dist_sq, gv_norm_sq, gv_sub, gv_zero, GVec, Vec2};
use crate::ConfigError;

/// Fixed-point unit: this many grid steps make one drawing unit. The
/// inverse-distance force weighting is computed at this resolution.
pub const SCALE: i64 = 1000;

/// Default speed and force caps, ten drawing units, as a packer built by
/// [`Packer::new`] uses them.
pub const DEFAULT_MAX_SPEED: i64 = 10 * SCALE;

pub const DEFAULT_MAX_FORCE: i64 = 10 * SCALE;

/// Largest speed or force cap the tick arithmetic accepts.
pub const TUNING_LIMIT: i64 = 1_000_000;

/// A single pairwise separation force never exceeds this per component.
pub const FORCE_UNIT: i64 = SCALE * SCALE;

/// Largest circle count the tick arithmetic accepts; chosen so that a
/// neighbor count, which one tick grows by at most the circle count, fits a
/// `usize` even on a 32-bit machine.
pub const MAX_CIRCLES: usize = 65_535;

/// Owner of the ordered circle collection and the tuning constants.
#[derive(Debug)]
pub struct Packer {
    pub circles: Vec<Circle>,
    max_speed: i64,
    max_force: i64,
}

/// The mathematical value of a [`Packer`].
pub ghost struct GPacker {
    pub circles: Seq<GCircle>,
    pub max_speed: int,
    pub max_force: int,
}

/// The mathematical values of a circle collection.
pub open spec fn circle_views(s: Seq<Circle>) -> Seq<GCircle> {
    s.map_values(|c: Circle| c@)
}

impl View for Packer {
    type V = GPacker;

    closed spec fn view(&self) -> GPacker {
        GPacker {
            circles: circle_views(self.circles@),
            max_speed: self.max_speed as int,
            max_force: self.max_force as int,
        }
    }
}

/// A packer the tick arithmetic accepts: few enough circles, every circle in
/// bounds, tuning caps within [`TUNING_LIMIT`].
pub open spec fn packer_wf(p: GPacker) -> bool {
    &&& p.circles.len() <= MAX_CIRCLES
    &&& forall|k: int| 0 <= k < p.circles.len() ==> circle_in_bounds(#[trigger] p.circles[k])
    &&& 0 <= p.max_speed <= TUNING_LIMIT
    &&& 0 <= p.max_force <= TUNING_LIMIT
}

/// Boundary reflection for a `w * h` rectangle centered at the origin: a
/// velocity component is negated when the center is within half a radius of
/// leaving the rectangle on that axis (comparisons cross-multiplied by two,
/// so the half-radius test is exact on the grid).
pub open spec fn reflect_spec(c: GCircle, w: int, h: int) -> GCircle {
    let vx = if 2 * c.xy.x - c.radius < -w || 2 * c.xy.x + c.radius > w {
        -c.velocity.x
    } else {
        c.velocity.x
    };
    let vy = if 2 * c.xy.y - c.radius < -h || 2 * c.xy.y + c.radius > h {
        -c.velocity.y
    } else {
        c.velocity.y
    };
    GCircle { velocity: gv(vx, vy), ..c }
}

/// Reverses the velocity components of circle `index` that would carry it
/// past the bounding rectangle; position is never clamped.
pub fn check_borders(index: usize, circles: &mut Vec<Circle>, width: i64, height: i64)
    requires
        index < old(circles).len(),
        circle_in_bounds(old(circles)@[index as int]@),
        0 < width,
        0 < height,
    ensures
        final(circles)@.len() == old(circles)@.len(),
        forall|k: int|
            0 <= k < old(circles)@.len() && k != index ==> final(circles)@[k] == old(
                circles,
            )@[k],
        final(circles)@[index as int]@ == reflect_spec(
            old(circles)@[index as int]@,
            width as int,
            height as int,
        ),
{
    let mut c = circles[index];
    let x = c.xy.x;
    let y = c.xy.y;
    if 2 * x - c.radius < -width || 2 * x + c.radius > width {
        c.velocity.x = -c.velocity.x;
    }
    if 2 * y - c.radius < -height || 2 * y + c.radius > height {
        c.velocity.y = -c.velocity.y;
    }
    circles.set(index, c);
}

/// Whether some circle with a strictly higher index overlaps circle `i`.
/// Lower indices are deliberately not consulted; see
/// [`check_circle_position`].
pub open spec fn has_higher_neighbor(cs: Seq<GCircle>, i: int) -> bool {
    exists|j: int| i < j < cs.len() && overlaps_spec(cs[i], cs[j])
}

/// The neighbor presence check: a circle with no higher-indexed overlapping
/// neighbor has its velocity zeroed.
pub open spec fn damp_spec(cs: Seq<GCircle>, i: int) -> GCircle {
    if has_higher_neighbor(cs, i) {
        cs[i]
    } else {
        GCircle { velocity: gv_zero(), ..cs[i] }
    }
}

/// Zeroes the velocity of circle `index` unless some circle at a strictly
/// higher index overlaps it. The scan is first-hit and looks only upward:
/// a circle counts as isolated even while it touches a lower-indexed one.
pub fn check_circle_position(index: usize, circles: &mut Vec<Circle>)
    requires
        index < old(circles).len(),
        forall|k: int|
            index <= k < old(circles)@.len() ==> circle_in_bounds(
                #[trigger] old(circles)@[k]@,
            ),
    ensures
        final(circles)@.len() == old(circles)@.len(),
        forall|k: int|
            0 <= k < old(circles)@.len() && k != index ==> final(circles)@[k] == old(
                circles,
            )@[k],
        final(circles)@[index as int]@ == damp_spec(circle_views(old(circles)@), index as int),
{
    let ghost cs = circle_views(old(circles)@);
    let circle_i = circles[index];
    let mut circle_has_a_neighbor = false;
    let mut j = index + 1;
    while j < circles.len()
        invariant_except_break
            index < j <= circles.len(),
            !circle_has_a_neighbor,
            forall|k: int| index < k < j ==> !overlaps_spec(cs[index as int], #[trigger] cs[k]),
        invariant
            circles == old(circles),
            index < circles.len(),
            circle_i == circles@[index as int],
            cs == circle_views(circles@),
            forall|k: int|
                index <= k < cs.len() ==> circle_in_bounds(#[trigger] cs[k]),
        ensures
            circle_has_a_neighbor == has_higher_neighbor(cs, index as int),
        decreases circles.len() - j,
    {
        let circle_j = circles[j];
        proof {
            assert(circle_in_bounds(cs[index as int]));
            assert(circle_in_bounds(cs[j as int]));
            assert(circle_j@ == cs[j as int]);
        }
        if circle_i.overlaps(&circle_j) {
            circle_has_a_neighbor = true;
            proof {
                assert(overlaps_spec(cs[index as int], cs[j as int]));
            }
            break ;
        }
        j += 1;
    }
    if !circle_has_a_neighbor {
        let mut c = circle_i;
        c.velocity = Vec2 { x: 0, y: 0 };
        circles.set(index, c);
    }
}

/// The pairwise steering contribution pushing `a` away from `b`. Active only
/// when the centers differ and their distance is under the sum of the half
/// radii; the direction `a - b` is then normalized to [`SCALE`] and divided
/// once more by the distance, an inverse-distance weighting of magnitude
/// about `SCALE * SCALE / d` per unit.
pub open spec fn separation_force_spec(a: GCircle, b: GCircle) -> GVec {
    let d = sqrt_floor(gv_dist_sq(a.xy, b.xy));
    if d > 0 && 2 * d < a.radius + b.radius {
        let nx = div_t((a.xy.x - b.xy.x) * SCALE, d);
        let ny = div_t((a.xy.y - b.xy.y) * SCALE, d);
        gv(div_t(nx * SCALE, d), div_t(ny * SCALE, d))
    } else {
        gv_zero()
    }
}

/// `v` rescaled to length `m` (at grid resolution): each component is
/// multiplied by `m` and divided by the floor length of `v`. Meaningful only
/// for nonzero `v`.
pub open spec fn set_mag_spec(v: GVec, m: int) -> GVec {
    let len = sqrt_floor(gv_norm_sq(v));
    gv(div_t(v.x * m, len), div_t(v.y * m, len))
}

/// `v` unchanged when its squared length is within `m * m`, else `v`
/// rescaled to length `m`.
pub open spec fn limit_spec(v: GVec, m: int) -> GVec {
    if gv_norm_sq(v) > m * m {
        set_mag_spec(v, m)
    } else {
        v
    }
}

/// No separation force acts between coincident centers, nor at or beyond the
/// half-radii sum: the zero zone of the force field.
pub proof fn lemma_separation_force_zero_zone(a: GCircle, b: GCircle)
    requires
        sqrt_floor(gv_dist_sq(a.xy, b.xy)) == 0 || 2 * sqrt_floor(gv_dist_sq(a.xy, b.xy))
            >= a.radius + b.radius,
    ensures
        separation_force_spec(a, b) == gv_zero(),
{
}

/// Computes [`separation_force_spec`] for a pair of circles.
pub fn get_separation_force(n1: &Circle, n2: &Circle) -> (f: Vec2)
    requires
        circle_in_bounds(n1@),
        circle_in_bounds(n2@),
    ensures
        f@ == separation_force_spec(n1@, n2@),
        gv_bounded(f@, FORCE_UNIT as int),
{
    let dx: i64 = n1.xy.x - n2.xy.x;
    let dy: i64 = n1.xy.y - n2.xy.y;
    proof {
        lemma_sq_bound(dx as int, 2 * COORD_LIMIT as int);
        lemma_sq_bound(dy as int, 2 * COORD_LIMIT as int);
    }
    let dsq: i64 = dx * dx + dy * dy;
    let d: i64 = isqrt(dsq as u64) as i64;
    proof {
        assert(d == sqrt_floor(gv_dist_sq(n1@.xy, n2@.xy)));
        let dxi = dx as int;
        let dyi = dy as int;
        let adx: int = if dxi >= 0 { dxi } else { -dxi };
        let ady: int = if dyi >= 0 { dyi } else { -dyi };
        assert(adx * adx == dxi * dxi && ady * ady == dyi * dyi) by (nonlinear_arith)
            requires
                (adx == dxi || adx == -dxi) && (ady == dyi || ady == -dyi),
        ;
        lemma_sqrt_floor_dominates(adx, dsq as int);
        lemma_sqrt_floor_dominates(ady, dsq as int);
        assert(-(d as int) <= dx as int <= d as int);
        assert(-(d as int) <= dy as int <= d as int);
    }
    if d > 0 && 2 * d < n1.radius + n2.radius {
        let nx: i64 = div_trunc(dx * SCALE, d);
        let ny: i64 = div_trunc(dy * SCALE, d);
        proof {
            lemma_div_t_bound((dx * SCALE) as int, d as int, SCALE as int);
            lemma_div_t_bound((dy * SCALE) as int, d as int, SCALE as int);
        }
        let fx: i64 = div_trunc(nx * SCALE, d);
        let fy: i64 = div_trunc(ny * SCALE, d);
        proof {
            lemma_div_t_bound((nx * SCALE) as int, d as int, FORCE_UNIT as int);
            lemma_div_t_bound((ny * SCALE) as int, d as int, FORCE_UNIT as int);
        }
        Vec2 { x: fx, y: fy }
    } else {
        Vec2 { x: 0, y: 0 }
    }
}

/// Rescales a nonzero vector to length `mag`; see [`set_mag_spec`].
fn set_mag(v: Vec2, mag: i64) -> (r: Vec2)
    requires
        v@ != gv_zero(),
        gv_bounded(v@, COORD_LIMIT + TUNING_LIMIT as int),
        0 <= mag <= TUNING_LIMIT,
    ensures
        r@ == set_mag_spec(v@, mag as int),
        gv_bounded(r@, mag as int),
{
    proof {
        lemma_sq_bound(v@.x, COORD_LIMIT + TUNING_LIMIT as int);
        lemma_sq_bound(v@.y, COORD_LIMIT + TUNING_LIMIT as int);
    }
    let nsq: i64 = v.x * v.x + v.y * v.y;
    let len: i64 = isqrt(nsq as u64) as i64;
    proof {
        assert(len == sqrt_floor(gv_norm_sq(v@)));
        if v@.x != 0 || v@.y != 0 {
            assert(nsq as int >= 1) by (nonlinear_arith)
                requires
                    nsq as int == v@.x * v@.x + v@.y * v@.y,
                    v@.x != 0 || v@.y != 0,
            ;
        }
        let xi = v@.x;
        let yi = v@.y;
        let ax: int = if xi >= 0 { xi } else { -xi };
        let ay: int = if yi >= 0 { yi } else { -yi };
        assert(ax * ax == xi * xi && ay * ay == yi * yi) by (nonlinear_arith)
            requires
                (ax == xi || ax == -xi) && (ay == yi || ay == -yi),
        ;
        lemma_sqrt_floor_dominates(ax, nsq as int);
        lemma_sqrt_floor_dominates(ay, nsq as int);
        assert(-(len as int) <= v@.x <= len as int);
        assert(-(len as int) <= v@.y <= len as int);
        assert(len >= 1);
        assert(abs(v@.x * mag as int) <= mag * len) by (nonlinear_arith)
            requires
                -(len as int) <= v@.x <= len as int,
                0 <= mag,
        ;
        assert(abs(v@.y * mag as int) <= mag * len) by (nonlinear_arith)
            requires
                -(len as int) <= v@.y <= len as int,
                0 <= mag,
        ;
        lemma_div_t_bound((v@.x * mag) as int, len as int, mag as int);
        lemma_div_t_bound((v@.y * mag) as int, len as int, mag as int);
        assert(-1_001_000_000_000_000 <= v@.x * mag <= 1_001_000_000_000_000
            && -1_001_000_000_000_000 <= v@.y * mag <= 1_001_000_000_000_000)
            by (nonlinear_arith)
            requires
                -1_001_000_000 <= v@.x <= 1_001_000_000,
                -1_001_000_000 <= v@.y <= 1_001_000_000,
                0 <= mag <= 1_000_000,
        ;
    }
    let rx: i64 = div_trunc(v.x * mag, len);
    let ry: i64 = div_trunc(v.y * mag, len);
    Vec2 { x: rx, y: ry }
}

/// Caps the length of a vector at `limit`; see [`limit_spec`].
fn limit(v: Vec2, cap: i64) -> (r: Vec2)
    requires
        gv_bounded(v@, COORD_LIMIT + TUNING_LIMIT as int),
        0 <= cap <= TUNING_LIMIT,
    ensures
        r@ == limit_spec(v@, cap as int),
        gv_bounded(r@, cap as int),
{
    proof {
        lemma_sq_bound(v@.x, COORD_LIMIT + TUNING_LIMIT as int);
        lemma_sq_bound(v@.y, COORD_LIMIT + TUNING_LIMIT as int);
        lemma_sq_bound(cap as int, TUNING_LIMIT as int);
        assert((COORD_LIMIT + TUNING_LIMIT as int) * (COORD_LIMIT + TUNING_LIMIT as int)
            == 1_002_001_000_000_000_000) by (nonlinear_arith);
    }
    let nsq: i64 = v.x * v.x + v.y * v.y;
    let msq: i64 = cap * cap;
    if nsq > msq {
        proof {
            if v@ == gv_zero() {
                assert(nsq as int == 0);
            }
            assert(v@.x * v@.x <= nsq as int && v@.y * v@.y <= nsq as int);
        }
        set_mag(v, cap)
    } else {
        proof {
            assert(-(cap as int) <= v@.x <= cap as int && -(cap as int) <= v@.y
                <= cap as int) by (nonlinear_arith)
                requires
                    v@.x * v@.x + v@.y * v@.y <= cap as int * cap as int,
                    cap >= 0,
            ;
        }
        v
    }
}

/// The mathematical values of a force buffer.
pub open spec fn force_views(s: Seq<Vec2>) -> Seq<GVec> {
    s.map_values(|v: Vec2| v@)
}

/// The mathematical values of a neighbor-count buffer.
pub open spec fn count_views(s: Seq<usize>) -> Seq<int> {
    s.map_values(|c: usize| c as int)
}

/// The transient buffers of a tick are well formed: equally long as the
/// circle collection, counts nonnegative, and every accumulated force
/// bounded by its count many [`FORCE_UNIT`] contributions — so a force is
/// zero wherever its count is.
pub open spec fn sweep_wf(sf: Seq<GVec>, nc: Seq<int>, n: int) -> bool {
    &&& sf.len() == n
    &&& nc.len() == n
    &&& forall|k: int| 0 <= k < n ==> 0 <= #[trigger] nc[k]
    &&& forall|k: int| 0 <= k < n ==> gv_bounded(#[trigger] sf[k], nc[k] * FORCE_UNIT)
}

/// Every neighbor count is at most `cap`.
pub open spec fn counts_capped(nc: Seq<int>, cap: int) -> bool {
    forall|k: int| 0 <= k < nc.len() ==> #[trigger] nc[k] <= cap
}

/// Largest neighbor count the tick arithmetic accepts on entry to the
/// separation step: `MAX_CIRCLES * (MAX_CIRCLES - 1)`, which a tick that
/// started from empty buffers can never exceed.
pub const COUNT_LIMIT: i64 = 4_294_770_690;

/// The inner sweep of circle `i` against every higher-indexed circle,
/// starting at index `j`: each nonzero pairwise force joins `i`'s
/// accumulator, leaves `j`'s (equal and opposite), and bumps both counts.
pub open spec fn pair_sweep(
    cs: Seq<GCircle>,
    i: int,
    j: int,
    sf: Seq<GVec>,
    nc: Seq<int>,
) -> (Seq<GVec>, Seq<int>)
    decreases cs.len() - j,
{
    if j < 0 || j >= cs.len() || !(0 <= i < cs.len()) {
        (sf, nc)
    } else {
        let f = separation_force_spec(cs[i], cs[j]);
        if f != gv_zero() {
            pair_sweep(
                cs,
                i,
                j + 1,
                sf.update(i, gv_add(sf[i], f)).update(j, gv_sub(sf[j], f)),
                nc.update(i, nc[i] + 1).update(j, nc[j] + 1),
            )
        } else {
            pair_sweep(cs, i, j + 1, sf, nc)
        }
    }
}

/// What one circle's accumulated separation force becomes before it is
/// applied: averaged over its contributions, and, when nonzero, reshaped
/// into a steering force — scaled to the desired speed `ms`, less the
/// current velocity, capped at `mf`.
pub open spec fn steer_spec(sf_i: GVec, nc_i: int, vel: GVec, ms: int, mf: int) -> GVec {
    let avg = if nc_i > 0 {
        gv(div_t(sf_i.x, nc_i), div_t(sf_i.y, nc_i))
    } else {
        sf_i
    };
    if avg != gv_zero() {
        limit_spec(gv_sub(set_mag_spec(avg, ms), vel), mf)
    } else {
        avg
    }
}

proof fn lemma_circle_views_update(s: Seq<Circle>, s0: Seq<Circle>, k: int, g: GCircle)
    requires
        s.len() == s0.len(),
        0 <= k < s.len(),
        forall|m: int| 0 <= m < s0.len() && m != k ==> s[m] == s0[m],
        s[k]@ == g,
    ensures
        circle_views(s) == circle_views(s0).update(k, g),
{
    assert(circle_views(s) =~= circle_views(s0).update(k, g));
}

proof fn lemma_force_views_update(s: Seq<Vec2>, k: int, v: Vec2)
    requires
        0 <= k < s.len(),
    ensures
        force_views(s.update(k, v)) == force_views(s).update(k, v@),
{
    assert(force_views(s.update(k, v)) =~= force_views(s).update(k, v@));
}

proof fn lemma_count_views_update(s: Seq<usize>, k: int, c: usize)
    requires
        0 <= k < s.len(),
    ensures
        count_views(s.update(k, c)) == count_views(s).update(k, c as int),
{
    assert(count_views(s.update(k, c)) =~= count_views(s).update(k, c as int));
}

/// Runs the separation-force step for circle `index`: sweeps every
/// higher-indexed circle for pairwise forces (writing the equal-and-opposite
/// share into the higher circle's buffer slot), averages and reshapes its
/// own accumulated force, applies it, and integrates circle `index`
/// immediately.
pub fn apply_separation_forces_to_circle(
    index: usize,
    circles: &mut Vec<Circle>,
    separate_forces: &mut Vec<Vec2>,
    near_circles: &mut Vec<usize>,
    max_force: i64,
    max_speed: i64,
)
    requires
        index < old(circles).len(),
        old(circles).len() <= MAX_CIRCLES,
        forall|k: int|
            index <= k < old(circles)@.len() ==> circle_in_bounds(
                #[trigger] old(circles)@[k]@,
            ),
        sweep_wf(
            force_views(old(separate_forces)@),
            count_views(old(near_circles)@),
            old(circles)@.len() as int,
        ),
        counts_capped(count_views(old(near_circles)@), COUNT_LIMIT as int),
        0 <= max_force <= TUNING_LIMIT,
        0 <= max_speed <= TUNING_LIMIT,
    ensures
        final(circles)@.len() == old(circles)@.len(),
        final(separate_forces)@.len() == old(separate_forces)@.len(),
        final(near_circles)@.len() == old(near_circles)@.len(),
        forall|k: int|
            0 <= k < old(circles)@.len() && k != index ==> final(circles)@[k] == old(
                circles,
            )@[k],
        ({
            let cs = circle_views(old(circles)@);
            let swept = pair_sweep(
                cs,
                index as int,
                index as int + 1,
                force_views(old(separate_forces)@),
                count_views(old(near_circles)@),
            );
            let force = steer_spec(
                swept.0[index as int],
                swept.1[index as int],
                cs[index as int].velocity,
                max_speed as int,
                max_force as int,
            );
            &&& count_views(final(near_circles)@) == swept.1
            &&& force_views(final(separate_forces)@) == swept.0.update(index as int, force)
            &&& final(circles)@[index as int]@ == integrate_spec(
                apply_force_spec(cs[index as int], force),
            )
        }),
        sweep_wf(
            force_views(final(separate_forces)@),
            count_views(final(near_circles)@),
            old(circles)@.len() as int,
        ),
        forall|k: int|
            0 <= k < old(circles)@.len() ==> #[trigger] count_views(final(near_circles)@)[k]
                <= count_views(old(near_circles)@)[k] + old(circles)@.len() - 1,
{
    let ghost cs = circle_views(old(circles)@);
    let ghost sf0 = force_views(old(separate_forces)@);
    let ghost nc0 = count_views(old(near_circles)@);
    let circle = circles[index];
    let n = circles.len();
    let mut j = index + 1;
    while j < n
        invariant
            index < j <= n,
            n == circles.len(),
            circles == old(circles),
            separate_forces.len() == n,
            near_circles.len() == n,
            n <= MAX_CIRCLES,
            circle == circles@[index as int],
            cs == circle_views(circles@),
            sf0 == force_views(old(separate_forces)@),
            nc0 == count_views(old(near_circles)@),
            nc0.len() == n,
            forall|k: int| index <= k < n ==> circle_in_bounds(#[trigger] cs[k]),
            sweep_wf(force_views(separate_forces@), count_views(near_circles@), n as int),
            counts_capped(nc0, COUNT_LIMIT as int),
            forall|k: int|
                0 <= k < n ==> #[trigger] count_views(near_circles@)[k] <= nc0[k] + (j - index
                    - 1),
            pair_sweep(
                cs,
                index as int,
                j as int,
                force_views(separate_forces@),
                count_views(near_circles@),
            ) == pair_sweep(cs, index as int, index as int + 1, sf0, nc0),
        decreases n - j,
    {
        let circle_j = circles[j];
        proof {
            assert(circle_in_bounds(cs[index as int]));
            assert(circle_in_bounds(cs[j as int]));
            assert(circle_j@ == cs[j as int]);
        }
        let force_ij = get_separation_force(&circle, &circle_j);
        if !force_ij.is_zero() {
            let ghost sf_mid = force_views(separate_forces@);
            let ghost nc_mid = count_views(near_circles@);
            let s_i = separate_forces[index];
            let s_j = separate_forces[j];
            let c_i = near_circles[index];
            let c_j = near_circles[j];
            proof {
                assert(s_i@ == sf_mid[index as int] && s_j@ == sf_mid[j as int]);
                assert(c_i as int == nc_mid[index as int] && c_j as int == nc_mid[j as int]);
                assert(count_views(near_circles@)[index as int] <= nc0[index as int] + (
                j - index - 1));
                assert(count_views(near_circles@)[j as int] <= nc0[j as int] + (j - index
                    - 1));
                assert(nc0[index as int] <= COUNT_LIMIT as int);
                assert(nc0[j as int] <= COUNT_LIMIT as int);
                assert(c_i as int <= COUNT_LIMIT + MAX_CIRCLES);
                assert(c_j as int <= COUNT_LIMIT + MAX_CIRCLES);
            }
            let s_i_new = s_i.add(force_ij);
            let s_j_new = s_j.sub(force_ij);
            let ghost sf_mid_exec = separate_forces@;
            let ghost nc_mid_exec = near_circles@;
            separate_forces.set(index, s_i_new);
            separate_forces.set(j, s_j_new);
            near_circles.set(index, c_i + 1);
            near_circles.set(j, c_j + 1);
            proof {
                lemma_force_views_update(sf_mid_exec, index as int, s_i_new);
                lemma_force_views_update(
                    sf_mid_exec.update(index as int, s_i_new),
                    j as int,
                    s_j_new,
                );
                lemma_count_views_update(nc_mid_exec, index as int, (c_i + 1) as usize);
                lemma_count_views_update(
                    nc_mid_exec.update(index as int, (c_i + 1) as usize),
                    j as int,
                    (c_j + 1) as usize,
                );
                let f = separation_force_spec(cs[index as int], cs[j as int]);
                assert(f == force_ij@);
                assert(force_views(separate_forces@) == sf_mid.update(
                    index as int,
                    gv_add(sf_mid[index as int], f),
                ).update(j as int, gv_sub(sf_mid[j as int], f)));
                assert(count_views(near_circles@) == nc_mid.update(
                    index as int,
                    nc_mid[index as int] + 1,
                ).update(j as int, nc_mid[j as int] + 1));
                assert(pair_sweep(cs, index as int, j as int, sf_mid, nc_mid) == pair_sweep(
                    cs,
                    index as int,
                    j as int + 1,
                    force_views(separate_forces@),
                    count_views(near_circles@),
                ));
            }
        }
        j += 1;
    }
    proof {
        assert(pair_sweep(
            cs,
            index as int,
            n as int,
            force_views(separate_forces@),
            count_views(near_circles@),
        ) == (force_views(separate_forces@), count_views(near_circles@)));
    }
    let ghost sf_end = force_views(separate_forces@);
    let ghost nc_end = count_views(near_circles@);
    proof {
        assert(sf_end == pair_sweep(cs, index as int, index as int + 1, sf0, nc0).0);
        assert(nc_end == pair_sweep(cs, index as int, index as int + 1, sf0, nc0).1);
    }
    let nci = near_circles[index];
    let mut sfi = separate_forces[index];
    proof {
        assert(sfi@ == sf_end[index as int]);
        assert(nci as int == nc_end[index as int]);
        assert(gv_bounded(sfi@, nc_end[index as int] * FORCE_UNIT));
    }
    if nci > 0 {
        proof {
            lemma_div_t_bound(sfi@.x, nci as int, FORCE_UNIT as int);
            lemma_div_t_bound(sfi@.y, nci as int, FORCE_UNIT as int);
        }
        sfi = Vec2 { x: div_trunc(sfi.x, nci as i64), y: div_trunc(sfi.y, nci as i64) };
    }
    if !sfi.is_zero() {
        sfi = set_mag(sfi, max_speed);
        sfi = sfi.sub(circle.velocity);
        sfi = limit(sfi, max_force);
    }
    proof {
        assert(sfi@ == steer_spec(
            sf_end[index as int],
            nc_end[index as int],
            cs[index as int].velocity,
            max_speed as int,
            max_force as int,
        ));
    }
    let ghost sf_end_exec = separate_forces@;
    separate_forces.set(index, sfi);
    proof {
        lemma_force_views_update(sf_end_exec, index as int, sfi);
    }
    let mut c = circle;
    c.apply_force(sfi);
    c.update();
    circles.set(index, c);
}

/// One full per-index step of a tick: boundary reflection, then the
/// neighbor presence check, then the separation-force sweep with immediate
/// integration of circle `i`.
pub open spec fn tick_step(
    cs: Seq<GCircle>,
    sf: Seq<GVec>,
    nc: Seq<int>,
    i: int,
    w: int,
    h: int,
    ms: int,
    mf: int,
) -> (Seq<GCircle>, Seq<GVec>, Seq<int>) {
    let cs1 = cs.update(i, reflect_spec(cs[i], w, h));
    let cs2 = cs1.update(i, damp_spec(cs1, i));
    let swept = pair_sweep(cs2, i, i + 1, sf, nc);
    let force = steer_spec(swept.0[i], swept.1[i], cs2[i].velocity, ms, mf);
    let c3 = integrate_spec(apply_force_spec(cs2[i], force));
    (cs2.update(i, c3), swept.0.update(i, force), swept.1)
}

/// The rest of a tick, from index `i` upward. Each circle is integrated
/// before the next index starts, so later circles observe earlier circles
/// already moved within the same tick.
pub open spec fn tick_from(
    cs: Seq<GCircle>,
    sf: Seq<GVec>,
    nc: Seq<int>,
    i: int,
    w: int,
    h: int,
    ms: int,
    mf: int,
) -> Seq<GCircle>
    decreases cs.len() - i,
{
    if i < 0 || i >= cs.len() {
        cs
    } else {
        let stepped = tick_step(cs, sf, nc, i, w, h, ms, mf);
        tick_from(stepped.0, stepped.1, stepped.2, i + 1, w, h, ms, mf)
    }
}

/// One whole tick over the collection, from freshly zeroed transient
/// buffers.
pub open spec fn tick_spec(cs: Seq<GCircle>, w: int, h: int, ms: int, mf: int) -> Seq<
    GCircle,
> {
    tick_from(
        cs,
        Seq::new(cs.len(), |k: int| gv_zero()),
        Seq::new(cs.len(), |k: int| 0),
        0,
        w,
        h,
        ms,
        mf,
    )
}

proof fn lemma_tick_step_preserves_radii(
    cs: Seq<GCircle>,
    sf: Seq<GVec>,
    nc: Seq<int>,
    i: int,
    w: int,
    h: int,
    ms: int,
    mf: int,
)
    requires
        0 <= i < cs.len(),
    ensures
        tick_step(cs, sf, nc, i, w, h, ms, mf).0.len() == cs.len(),
        forall|k: int|
            0 <= k < cs.len() ==> #[trigger] tick_step(cs, sf, nc, i, w, h, ms, mf).0[k].radius
                == cs[k].radius,
{
}

proof fn lemma_tick_from_preserves_radii(
    cs: Seq<GCircle>,
    sf: Seq<GVec>,
    nc: Seq<int>,
    i: int,
    w: int,
    h: int,
    ms: int,
    mf: int,
)
    ensures
        tick_from(cs, sf, nc, i, w, h, ms, mf).len() == cs.len(),
        forall|k: int|
            0 <= k < cs.len() ==> #[trigger] tick_from(cs, sf, nc, i, w, h, ms, mf)[k].radius
                == cs[k].radius,
    decreases cs.len() - i,
{
    if i < 0 || i >= cs.len() {
    } else {
        let stepped = tick_step(cs, sf, nc, i, w, h, ms, mf);
        lemma_tick_step_preserves_radii(cs, sf, nc, i, w, h, ms, mf);
        lemma_tick_from_preserves_radii(stepped.0, stepped.1, stepped.2, i + 1, w, h, ms, mf);
    }
}

/// A tick never adds, removes or resizes a circle: the collection keeps its
/// length and every circle its construction-time radius.
pub proof fn lemma_tick_preserves_radii(cs: Seq<GCircle>, w: int, h: int, ms: int, mf: int)
    ensures
        tick_spec(cs, w, h, ms, mf).len() == cs.len(),
        forall|k: int|
            0 <= k < cs.len() ==> #[trigger] tick_spec(cs, w, h, ms, mf)[k].radius == cs[
                k].radius,
{
    lemma_tick_from_preserves_radii(
        cs,
        Seq::new(cs.len(), |k: int| gv_zero()),
        Seq::new(cs.len(), |k: int| 0),
        0,
        w,
        h,
        ms,
        mf,
    );
}

impl Default for Packer {
    /// An empty packer with zeroed tuning caps; circles can be added one by
    /// one with [`Packer::add_circle`].
    fn default() -> (p: Self)
        ensures
            p@.circles.len() == 0,
            p@.max_speed == 0,
            p@.max_force == 0,
            packer_wf(p@),
    {
        Packer { circles: Vec::new(), max_speed: 0, max_force: 0 }
    }
}

/// The configuration a packer may be built from: positive radius bounds in
/// the right order, nonnegative variance, positive bounding rectangle.
pub open spec fn valid_packer_config(
    min_radius: int,
    max_radius: int,
    variance: int,
    w: int,
    h: int,
) -> bool {
    &&& min_radius > 0
    &&& max_radius > min_radius
    &&& variance >= 0
    &&& w > 0
    &&& h > 0
}

/// What holds of every circle of a freshly built layout: radius drawn from
/// `[min_radius, max_radius)`, center within the variance box, at rest.
pub open spec fn fresh_circle(c: GCircle, min_radius: int, max_radius: int, variance: int) -> bool {
    &&& min_radius <= c.radius < max_radius
    &&& -variance <= c.xy.x <= variance
    &&& -variance <= c.xy.y <= variance
    &&& c.velocity == gv_zero()
    &&& c.acceleration == gv_zero()
}

impl Packer {
    /// Builds a randomized initial layout of `circle_count + 1` circles
    /// (the range of indices is inclusive): positions drawn per axis from
    /// the variance interval, radii from `[min_radius, max_radius)`, all
    /// through one generator seeded with `seed`. A malformed configuration
    /// is rejected before any circle is created; ticks consult no further
    /// randomness.
    pub fn new(
        circle_count: usize,
        min_radius: i64,
        max_radius: i64,
        start_position_variance: i64,
        width_height_hint: (i64, i64),
        seed: u64,
    ) -> (r: Result<Packer, ConfigError>)
        requires
            circle_count + 1 <= MAX_CIRCLES,
            max_radius <= COORD_LIMIT,
            start_position_variance <= COORD_LIMIT,
        ensures
            min_radius <= 0 ==> r == Err::<Packer, ConfigError>(ConfigError::NonPositiveMinRadius),
            min_radius > 0 && max_radius <= min_radius ==> r == Err::<Packer, ConfigError>(
                ConfigError::EmptyRadiusRange,
            ),
            min_radius > 0 && max_radius > min_radius && start_position_variance < 0 ==> r
                == Err::<Packer, ConfigError>(ConfigError::NegativeVariance),
            min_radius > 0 && max_radius > min_radius && start_position_variance >= 0 && (
            width_height_hint.0 <= 0 || width_height_hint.1 <= 0) ==> r == Err::<
                Packer,
                ConfigError,
            >(ConfigError::NonPositiveBounds),
            valid_packer_config(
                min_radius as int,
                max_radius as int,
                start_position_variance as int,
                width_height_hint.0 as int,
                width_height_hint.1 as int,
            ) ==> {
                &&& r is Ok
                &&& r->Ok_0@.circles.len() == circle_count + 1
                &&& r->Ok_0@.max_speed == DEFAULT_MAX_SPEED
                &&& r->Ok_0@.max_force == DEFAULT_MAX_FORCE
                &&& forall|k: int|
                    0 <= k < r->Ok_0@.circles.len() ==> fresh_circle(
                        #[trigger] r->Ok_0@.circles[k],
                        min_radius as int,
                        max_radius as int,
                        start_position_variance as int,
                    )
                &&& packer_wf(r->Ok_0@)
            },
    {
        if min_radius <= 0 {
            return Err(ConfigError::NonPositiveMinRadius);
        }
        if max_radius <= min_radius {
            return Err(ConfigError::EmptyRadiusRange);
        }
        if start_position_variance < 0 {
            return Err(ConfigError::NegativeVariance);
        }
        if width_height_hint.0 <= 0 || width_height_hint.1 <= 0 {
            return Err(ConfigError::NonPositiveBounds);
        }
        let mut rng = rng_from_seed(seed);
        let mut circles: Vec<Circle> = Vec::new();
        let total = circle_count + 1;
        let mut made: usize = 0;
        while made < total
            invariant
                circles.len() == made,
                made <= total,
                0 < min_radius < max_radius <= COORD_LIMIT,
                0 <= start_position_variance <= COORD_LIMIT,
                forall|k: int|
                    0 <= k < made ==> fresh_circle(
                        #[trigger] circles@[k]@,
                        min_radius as int,
                        max_radius as int,
                        start_position_variance as int,
                    ),
            decreases total - made,
        {
            let x = if start_position_variance > 0 {
                rand_range(&mut rng, -start_position_variance, start_position_variance)
            } else {
                0
            };
            let y = if start_position_variance > 0 {
                rand_range(&mut rng, -start_position_variance, start_position_variance)
            } else {
                0
            };
            let radius = rand_range(&mut rng, min_radius, max_radius);
            circles.push(Circle::make(Vec2 { x, y }, radius));
            made += 1;
        }
        let p = Packer { circles, max_speed: DEFAULT_MAX_SPEED, max_force: DEFAULT_MAX_FORCE };
        proof {
            assert(forall|k: int|
                0 <= k < p@.circles.len() ==> #[trigger] p@.circles[k] == p.circles@[k]@);
            assert(forall|k: int|
                0 <= k < p@.circles.len() ==> circle_in_bounds(#[trigger] p@.circles[k]));
        }
        Ok(p)
    }

    /// Appends a circle to the collection.
    pub fn add_circle(&mut self, circle: Circle)
        ensures
            final(self)@.circles == old(self)@.circles.push(circle@),
            final(self)@.max_speed == old(self)@.max_speed,
            final(self)@.max_force == old(self)@.max_force,
    {
        let ghost pre = self.circles@;
        self.circles.push(circle);
        proof {
            assert(circle_views(self.circles@) =~= circle_views(pre).push(circle@));
        }
    }

    /// Whether the collection holds no circle.
    pub fn is_empty(&self) -> (r: bool)
        ensures
            r == (self@.circles.len() == 0),
    {
        self.circles.is_empty()
    }

    /// How many circles the collection holds.
    pub fn len(&self) -> (r: usize)
        ensures
            r == self@.circles.len(),
    {
        self.circles.len()
    }

    /// Runs one tick: for every index in ascending order, boundary
    /// reflection against the `width * height` rectangle, the neighbor
    /// presence check, and the separation-force step with immediate
    /// integration.
    pub fn update(&mut self, width: i64, height: i64)
        requires
            packer_wf(old(self)@),
            0 < width <= COORD_LIMIT,
            0 < height <= COORD_LIMIT,
        ensures
            final(self)@.circles == tick_spec(
                old(self)@.circles,
                width as int,
                height as int,
                old(self)@.max_speed,
                old(self)@.max_force,
            ),
            final(self)@.max_speed == old(self)@.max_speed,
            final(self)@.max_force == old(self)@.max_force,
    {
        let ghost cs0 = circle_views(old(self).circles@);
        let ghost ms = old(self)@.max_speed;
        let ghost mf = old(self)@.max_force;
        let n = self.circles.len();
        let mut separate_forces: Vec<Vec2> = Vec::new();
        let mut near_circles: Vec<usize> = Vec::new();
        let mut k: usize = 0;
        while k < n
            invariant
                k <= n,
                separate_forces.len() == k,
                near_circles.len() == k,
                forall|m: int| 0 <= m < k ==> #[trigger] separate_forces@[m] == (Vec2 { x: 0, y: 0 }),
                forall|m: int| 0 <= m < k ==> #[trigger] near_circles@[m] == 0usize,
            decreases n - k,
        {
            separate_forces.push(Vec2 { x: 0, y: 0 });
            near_circles.push(0);
            k += 1;
        }
        proof {
            assert(force_views(separate_forces@) =~= Seq::new(cs0.len(), |q: int| gv_zero()));
            assert(count_views(near_circles@) =~= Seq::new(cs0.len(), |q: int| 0));
        }
        let mut i: usize = 0;
        while i < n
            invariant
                i <= n,
                n == self.circles.len(),
                n <= MAX_CIRCLES,
                separate_forces.len() == n,
                near_circles.len() == n,
                self.max_speed == old(self).max_speed,
                self.max_force == old(self).max_force,
                0 <= self.max_speed <= TUNING_LIMIT,
                0 <= self.max_force <= TUNING_LIMIT,
                ms == self.max_speed as int,
                mf == self.max_force as int,
                0 < width <= COORD_LIMIT,
                0 < height <= COORD_LIMIT,
                cs0.len() == n,
                forall|q: int|
                    i <= q < n ==> circle_in_bounds(#[trigger] circle_views(self.circles@)[q]),
                sweep_wf(
                    force_views(separate_forces@),
                    count_views(near_circles@),
                    n as int,
                ),
                forall|q: int|
                    0 <= q < n ==> #[trigger] count_views(near_circles@)[q] <= i * (
                    MAX_CIRCLES - 1),
                tick_from(
                    circle_views(self.circles@),
                    force_views(separate_forces@),
                    count_views(near_circles@),
                    i as int,
                    width as int,
                    height as int,
                    ms,
                    mf,
                ) == tick_spec(cs0, width as int, height as int, ms, mf),
            decreases n - i,
        {
            let ghost cs_cur = circle_views(self.circles@);
            let ghost sf_cur = force_views(separate_forces@);
            let ghost nc_cur = count_views(near_circles@);
            let ghost cs_a_pre = self.circles@;
            check_borders(i, &mut self.circles, width, height);
            let ghost cs_b_pre = self.circles@;
            let ghost c_reflected = reflect_spec(cs_cur[i as int], width as int, height as int);
            proof {
                lemma_circle_views_update(cs_b_pre, cs_a_pre, i as int, c_reflected);
                assert(circle_in_bounds(cs_cur[i as int]));
                assert(circle_in_bounds(c_reflected));
                assert forall|q: int| i <= q < n implies circle_in_bounds(
                    #[trigger] cs_b_pre[q]@,
                ) by {
                    if q == i {
                        assert(cs_b_pre[q]@ == c_reflected);
                    } else {
                        assert(cs_b_pre[q] == cs_a_pre[q]);
                        assert(cs_a_pre[q]@ == cs_cur[q]);
                    }
                }
            }
            check_circle_position(i, &mut self.circles);
            let ghost cs_c_pre = self.circles@;
            let ghost cs1 = circle_views(cs_b_pre);
            let ghost c_damped = damp_spec(cs1, i as int);
            let ghost cs2 = cs1.update(i as int, c_damped);
            proof {
                lemma_circle_views_update(cs_c_pre, cs_b_pre, i as int, c_damped);
                assert(circle_in_bounds(c_damped));
                assert forall|q: int| i <= q < n implies circle_in_bounds(
                    #[trigger] cs_c_pre[q]@,
                ) by {
                    if q == i {
                        assert(cs_c_pre[q]@ == c_damped);
                    } else {
                        assert(cs_c_pre[q] == cs_b_pre[q]);
                    }
                }
            }
            apply_separation_forces_to_circle(
                i,
                &mut self.circles,
                &mut separate_forces,
                &mut near_circles,
                self.max_force,
                self.max_speed,
            );
            proof {
                let swept = pair_sweep(cs2, i as int, i as int + 1, sf_cur, nc_cur);
                let force = steer_spec(
                    swept.0[i as int],
                    swept.1[i as int],
                    cs2[i as int].velocity,
                    ms,
                    mf,
                );
                assert(circle_views(cs_c_pre) == cs2);
                lemma_circle_views_update(
                    self.circles@,
                    cs_c_pre,
                    i as int,
                    integrate_spec(apply_force_spec(cs2[i as int], force)),
                );
                let stepped = tick_step(
                    cs_cur,
                    sf_cur,
                    nc_cur,
                    i as int,
                    width as int,
                    height as int,
                    ms,
                    mf,
                );
                assert(stepped.0 == circle_views(self.circles@));
                assert(stepped.1 == force_views(separate_forces@));
                assert(stepped.2 == count_views(near_circles@));
                assert(tick_from(
                    cs_cur,
                    sf_cur,
                    nc_cur,
                    i as int,
                    width as int,
                    height as int,
                    ms,
                    mf,
                ) == tick_from(
                    stepped.0,
                    stepped.1,
                    stepped.2,
                    i as int + 1,
                    width as int,
                    height as int,
                    ms,
                    mf,
                ));
                assert forall|q: int| i + 1 <= q < n implies circle_in_bounds(
                    #[trigger] circle_views(self.circles@)[q],
                ) by {
                    assert(self.circles@[q] == cs_c_pre[q]);
                    assert(cs_c_pre[q]@ == cs2[q]);
                }
                assert forall|q: int|
                    0 <= q < n implies #[trigger] count_views(near_circles@)[q] <= (i + 1) * (
                MAX_CIRCLES - 1) by {
                    assert(count_views(near_circles@)[q] <= nc_cur[q] + n - 1);
                    assert(nc_cur[q] <= i * (MAX_CIRCLES - 1));
                }
            }
            i += 1;
        }
        proof {
            assert(circle_views(self.circles@) == tick_spec(
                cs0,
                width as int,
                height as int,
                ms,
                mf,
            ));
        }
    }
}

} // verus!
