//! The force and integration step: one fixed physical tick.
//!
//! For every particle, neighbors of the same population within the force
//! range contribute an acceleration from a two-regime radial law: inside the
//! minimum-separation radius the pair repels, beyond it the genome's decoded
//! coefficient scales a tent-shaped attraction profile.  Visible food items
//! add an affinity term.  Velocities are then advanced by the fixed timestep,
//! exponentially damped, speed-clamped, and positions move and either bounce
//! off the walls or wrap around the torus.  Everything is exact integer
//! arithmetic, so the step is reproducible tick for tick.

use vstd::prelude::*;
use crate::fixed::{Vec3i, abs_sp, isqrt_sp, norm_sq_sp, scaled_sp, isqrt, abs_i64, scaled_i64};
use crate::fixed::{lemma_axis_le_norm, lemma_scaled_direction_bound};
use crate::genome::Genotype;
use crate::torus::{GridParameters, BoundaryMode, axis_delta_sp, axis_delta, wrap_coord_sp};

verus! {

/// At most this many neighbor interactions are charged per particle and tick.
pub const MAX_INTERACTIONS: usize = 100;

/// Largest number of food items the force step accepts.
pub const MAX_FOODS: usize = 10_000;

/// A bound on the accumulated force per axis: the interaction cap times the
/// largest pair contribution, plus the food cap times the largest food term.
pub const FORCE_BOUND: i64 = 300_000_000;

/// One particle of one population: position, velocity, its type and the
/// population it belongs to.
#[derive(Clone, Copy, Debug, PartialEq, Eq, Structural)]
pub struct ParticleState {
    pub position: Vec3i,
    pub velocity: Vec3i,
    pub type_index: usize,
    pub sim_id: usize,
}

/// One shared food item.
#[derive(Clone, Copy, Debug, PartialEq, Eq, Structural)]
pub struct FoodItem {
    pub position: Vec3i,
    pub value: i64,
    pub visible: bool,
    pub respawn_enabled: bool,
    pub respawn_remaining: u64,
}

/// The per-run physics configuration, in milli units.
#[derive(Clone, Copy, Debug, PartialEq, Eq, Structural)]
pub struct PhysicsParams {
    pub grid: GridParameters,
    pub boundary_mode: BoundaryMode,
    pub max_force_range: i64,
    pub min_r: i64,
    pub dt: i64,
    pub damping: i64,
    pub collision_damping: i64,
    pub max_velocity: i64,
    pub particle_radius: i64,
    pub food_radius: i64,
}

impl PhysicsParams {
    /// The ranges every physics computation relies on.
    pub open spec fn wf(self) -> bool {
        &&& self.grid.wf()
        &&& 1 <= self.max_force_range <= 1_000_000
        &&& 1 <= self.min_r < self.max_force_range
        &&& 1 <= self.dt <= 1000
        &&& 0 <= self.damping <= 1000
        &&& 0 <= self.collision_damping <= 1000
        &&& 1 <= self.max_velocity <= 1_000_000
        &&& 1 <= self.particle_radius <= 100_000
        &&& 1 <= self.food_radius <= 100_000
        &&& 2 * self.particle_radius < self.grid.width
        &&& 2 * self.particle_radius < self.grid.height
        &&& 2 * self.particle_radius < self.grid.depth
    }

    /// A particle state this configuration can integrate: inside the domain,
    /// velocity within the speed limit.
    pub open spec fn particle_ok_sp(self, s: ParticleState) -> bool {
        &&& self.grid.contains_sp(s.position)
        &&& abs_sp(s.velocity.x as int) <= self.max_velocity
        &&& abs_sp(s.velocity.y as int) <= self.max_velocity
        &&& abs_sp(s.velocity.z as int) <= self.max_velocity
    }
}

// ---------------------------------------------------------------------------
// Displacements under the active boundary topology.

/// The displacement from `from` to `to`: the shortest toroidal image in
/// teleport mode, the raw difference in bounce mode.
pub open spec fn delta_axis_sp(mode: BoundaryMode, d: int, size: int) -> int {
    if mode == BoundaryMode::Teleport { axis_delta_sp(d, size) } else { d }
}

/// The mode-aware displacement vector between two points of the domain.
pub open spec fn delta_sp(p: PhysicsParams, from: Vec3i, to: Vec3i) -> (int, int, int) {
    (
        delta_axis_sp(p.boundary_mode, to.x - from.x, p.grid.width as int),
        delta_axis_sp(p.boundary_mode, to.y - from.y, p.grid.height as int),
        delta_axis_sp(p.boundary_mode, to.z - from.z, p.grid.depth as int),
    )
}

/// Squared length of the mode-aware displacement.
pub open spec fn delta_norm_sq_sp(p: PhysicsParams, from: Vec3i, to: Vec3i) -> int {
    let (dx, dy, dz) = delta_sp(p, from, to);
    dx * dx + dy * dy + dz * dz
}

/// Compute the mode-aware displacement vector.
pub fn delta_vec(p: &PhysicsParams, from: Vec3i, to: Vec3i) -> (r: Vec3i)
    requires
        p.wf(),
        p.grid.contains_sp(from),
        p.grid.contains_sp(to),
    ensures
        (r.x as int, r.y as int, r.z as int) == delta_sp(*p, from, to),
        abs_sp(r.x as int) <= p.grid.width,
        abs_sp(r.y as int) <= p.grid.height,
        abs_sp(r.z as int) <= p.grid.depth,
{
    match p.boundary_mode {
        BoundaryMode::Teleport => Vec3i {
            x: axis_delta(to.x - from.x, p.grid.width),
            y: axis_delta(to.y - from.y, p.grid.height),
            z: axis_delta(to.z - from.z, p.grid.depth),
        },
        BoundaryMode::Bounce => Vec3i {
            x: to.x - from.x,
            y: to.y - from.y,
            z: to.z - from.z,
        },
    }
}

// ---------------------------------------------------------------------------
// The two-regime pair force law.

/// The radial force in milli units for a pair at distance `dist` (in
/// `(0, max_force_range]`): inside `min_r` a pure repulsion growing toward
/// `-1`, beyond it the decoded attraction scaled by a tent profile that peaks
/// midway between `min_r` and the maximum range.
pub open spec fn pair_force_sp(p: PhysicsParams, dist: int, attraction: int) -> int {
    let nd = dist * 1000 / (p.max_force_range as int);
    let mrn = (p.min_r as int) * 1000 / (p.max_force_range as int);
    if nd < mrn {
        nd * 1000 / mrn - 1000
    } else {
        let dev = abs_sp(1000 + mrn - 2 * nd);
        let inner = 1000 - dev * 1000 / (1000 - mrn);
        scaled_sp(attraction, inner, 1000)
    }
}

/// The acceleration a neighbor at displacement `rel` contributes: the radial
/// force along the unit direction, scaled back up by the force range; zero at
/// (near-)zero distance and beyond the range.
pub open spec fn pair_accel_sp(p: PhysicsParams, rel: Vec3i, attraction: int)
    -> (int, int, int) {
    let dist = isqrt_sp(norm_sq_sp(rel));
    if dist <= 0 || dist > p.max_force_range {
        (0, 0, 0)
    } else {
        let f = pair_force_sp(p, dist, attraction);
        (
            scaled_sp(scaled_sp(rel.x as int, f, dist), p.max_force_range as int, 1000),
            scaled_sp(scaled_sp(rel.y as int, f, dist), p.max_force_range as int, 1000),
            scaled_sp(scaled_sp(rel.z as int, f, dist), p.max_force_range as int, 1000),
        )
    }
}

/// The radial force lies within twice the decoded force range.
proof fn lemma_pair_force_bound(p: PhysicsParams, dist: int, attraction: int)
    requires
        p.wf(),
        1 <= dist <= p.max_force_range,
        abs_sp(attraction) <= 2000,
    ensures
        abs_sp(pair_force_sp(p, dist, attraction)) <= 2000,
{
    let nd = dist * 1000 / (p.max_force_range as int);
    let mrn = (p.min_r as int) * 1000 / (p.max_force_range as int);
    assert(0 <= dist * 1000 <= p.max_force_range * 1000) by (nonlinear_arith)
        requires 1 <= dist <= p.max_force_range, p.max_force_range >= 1;
    vstd::arithmetic::div_mod::lemma_div_is_ordered(
        dist * 1000, p.max_force_range * 1000, p.max_force_range as int);
    assert(p.max_force_range * 1000 == 1000 * p.max_force_range) by (nonlinear_arith);
    vstd::arithmetic::div_mod::lemma_div_multiples_vanish(1000, p.max_force_range as int);
    vstd::arithmetic::div_mod::lemma_div_pos_is_pos(dist * 1000, p.max_force_range as int);
    assert(0 <= nd <= 1000);
    if nd < mrn {
        assert(0 <= nd * 1000 <= mrn * 1000) by (nonlinear_arith)
            requires 0 <= nd <= mrn;
        vstd::arithmetic::div_mod::lemma_div_is_ordered(nd * 1000, mrn * 1000, mrn);
        assert(mrn * 1000 == 1000 * mrn) by (nonlinear_arith);
        vstd::arithmetic::div_mod::lemma_div_multiples_vanish(1000, mrn);
        vstd::arithmetic::div_mod::lemma_div_pos_is_pos(nd * 1000, mrn);
    } else {
        assert(mrn < 1000) by {
            lemma_strict_ratio(p.min_r as int, p.max_force_range as int);
        }
        vstd::arithmetic::div_mod::lemma_div_pos_is_pos(p.min_r * 1000, p.max_force_range as int);
        let dev = abs_sp(1000 + mrn - 2 * nd);
        assert(dev <= 1000 - mrn);
        assert(0 <= dev * 1000 <= (1000 - mrn) * 1000) by (nonlinear_arith)
            requires 0 <= dev <= 1000 - mrn;
        vstd::arithmetic::div_mod::lemma_div_is_ordered(dev * 1000, (1000 - mrn) * 1000, 1000 - mrn);
        assert((1000 - mrn) * 1000 == 1000 * (1000 - mrn)) by (nonlinear_arith);
        vstd::arithmetic::div_mod::lemma_div_multiples_vanish(1000, 1000 - mrn);
        vstd::arithmetic::div_mod::lemma_div_pos_is_pos(dev * 1000, 1000 - mrn);
        let inner = 1000 - dev * 1000 / (1000 - mrn);
        assert(0 <= inner <= 1000);
        assert(abs_sp(scaled_sp(attraction, inner, 1000)) <= 2000) by {
            lemma_scaled_direction_bound(inner, attraction, 1000, 2000);
            assert(abs_sp(inner) * abs_sp(attraction) == abs_sp(attraction) * abs_sp(inner))
                by (nonlinear_arith);
        }
    }
}

/// Each axis of a pair acceleration is bounded by twice the force range.
pub proof fn lemma_pair_accel_bound(p: PhysicsParams, rel: Vec3i, attraction: int)
    requires
        p.wf(),
        abs_sp(attraction) <= 2000,
    ensures
        abs_sp(pair_accel_sp(p, rel, attraction).0) <= 2 * p.max_force_range,
        abs_sp(pair_accel_sp(p, rel, attraction).1) <= 2 * p.max_force_range,
        abs_sp(pair_accel_sp(p, rel, attraction).2) <= 2 * p.max_force_range,
{
    let dist = isqrt_sp(norm_sq_sp(rel));
    if 0 < dist <= p.max_force_range {
        lemma_pair_force_bound(p, dist, attraction);
        let f = pair_force_sp(p, dist, attraction);
        lemma_axis_le_norm(rel);
        lemma_scaled_direction_bound(rel.x as int, f, dist, 2000);
        lemma_scaled_direction_bound(rel.y as int, f, dist, 2000);
        lemma_scaled_direction_bound(rel.z as int, f, dist, 2000);
        lemma_axis_scale_up(p, scaled_sp(rel.x as int, f, dist));
        lemma_axis_scale_up(p, scaled_sp(rel.y as int, f, dist));
        lemma_axis_scale_up(p, scaled_sp(rel.z as int, f, dist));
    }
}

/// Scaling a milli value of magnitude at most 2000 by the force range over
/// 1000 keeps it within twice the force range.
proof fn lemma_axis_scale_up(p: PhysicsParams, t: int)
    requires
        p.wf(),
        abs_sp(t) <= 2000,
    ensures
        abs_sp(scaled_sp(t, p.max_force_range as int, 1000)) <= 2 * p.max_force_range,
{
    let mr = p.max_force_range as int;
    assert(0 <= abs_sp(t) * abs_sp(mr) <= 2000 * mr) by (nonlinear_arith)
        requires 0 <= abs_sp(t) <= 2000, 0 <= abs_sp(mr) == mr;
    vstd::arithmetic::div_mod::lemma_div_is_ordered(abs_sp(t) * abs_sp(mr), 2000 * mr, 1000);
    assert(2000 * mr == 1000 * (2 * mr)) by (nonlinear_arith);
    vstd::arithmetic::div_mod::lemma_div_multiples_vanish(2 * mr, 1000);
    vstd::arithmetic::div_mod::lemma_div_pos_is_pos(abs_sp(t) * abs_sp(mr), 1000);
}

/// Compute the acceleration one neighbor contributes (the shared CPU/GPU
/// force law).
pub fn calculate_acceleration(p: &PhysicsParams, relative_pos: Vec3i, attraction: i64)
    -> (r: Vec3i)
    requires
        p.wf(),
        abs_sp(relative_pos.x as int) <= MAX_COORD_AXIS,
        abs_sp(relative_pos.y as int) <= MAX_COORD_AXIS,
        abs_sp(relative_pos.z as int) <= MAX_COORD_AXIS,
        abs_sp(attraction as int) <= 2000,
    ensures
        (r.x as int, r.y as int, r.z as int) == pair_accel_sp(*p, relative_pos, attraction as int),
        abs_sp(r.x as int) <= 2 * p.max_force_range,
        abs_sp(r.y as int) <= 2 * p.max_force_range,
        abs_sp(r.z as int) <= 2 * p.max_force_range,
{
    proof {
        lemma_axis_squares_bound(relative_pos);
        lemma_pair_accel_bound(*p, relative_pos, attraction as int);
    }
    let d2 = relative_pos.x * relative_pos.x + relative_pos.y * relative_pos.y
        + relative_pos.z * relative_pos.z;
    let dist = isqrt(d2);
    if dist <= 0 || dist > p.max_force_range {
        return Vec3i { x: 0, y: 0, z: 0 };
    }
    proof {
        assert(0 <= dist * 1000 <= p.max_force_range * 1000) by (nonlinear_arith)
            requires 1 <= dist <= p.max_force_range, p.max_force_range >= 1;
    }
    proof {
        vstd::arithmetic::div_mod::lemma_div_pos_is_pos(dist * 1000, p.max_force_range as int);
        vstd::arithmetic::div_mod::lemma_div_is_ordered(
            dist * 1000, p.max_force_range * 1000, p.max_force_range as int);
        assert(p.max_force_range * 1000 == 1000 * p.max_force_range) by (nonlinear_arith);
        vstd::arithmetic::div_mod::lemma_div_multiples_vanish(1000, p.max_force_range as int);
        vstd::arithmetic::div_mod::lemma_div_pos_is_pos(
            p.min_r * 1000, p.max_force_range as int);
    }
    let nd = dist * 1000 / p.max_force_range;
    let mrn = p.min_r * 1000 / p.max_force_range;
    let force: i64 = if nd < mrn {
        proof {
            assert(0 <= nd * 1000 <= 1_000_000_000) by (nonlinear_arith)
                requires 0 <= nd <= 1000;
        }
        nd * 1000 / mrn - 1000
    } else {
        proof {
            assert(mrn < 1000) by {
                assert(0 <= p.min_r * 1000 < p.max_force_range * 1000) by (nonlinear_arith)
                    requires 0 <= p.min_r < p.max_force_range;
                lemma_strict_ratio(p.min_r as int, p.max_force_range as int);
            }
        }
        let dev = abs_i64(1000 + mrn - 2 * nd);
        proof {
            assert(0 <= dev * 1000 <= 4_000_000_000) by (nonlinear_arith)
                requires 0 <= dev <= 4000;
        }
        let inner = 1000 - dev * 1000 / (1000 - mrn);
        scaled_i64(attraction, inner, 1000)
    };
    proof {
        assert(force as int == pair_force_sp(*p, dist as int, attraction as int));
        lemma_pair_force_bound(*p, dist as int, attraction as int);
        lemma_axis_le_norm(relative_pos);
        lemma_scaled_direction_bound(relative_pos.x as int, force as int, dist as int, 2000);
        lemma_scaled_direction_bound(relative_pos.y as int, force as int, dist as int, 2000);
        lemma_scaled_direction_bound(relative_pos.z as int, force as int, dist as int, 2000);
    }
    Vec3i {
        x: scaled_i64(scaled_i64(relative_pos.x, force, dist), p.max_force_range, 1000),
        y: scaled_i64(scaled_i64(relative_pos.y, force, dist), p.max_force_range, 1000),
        z: scaled_i64(scaled_i64(relative_pos.z, force, dist), p.max_force_range, 1000),
    }
}

/// Positions handed to the force law stay well within `i64` squares.
pub const MAX_COORD_AXIS: i64 = 1_000_000_000;

/// The squared norm of a bounded displacement fits comfortably in `i64`.
pub proof fn lemma_axis_squares_bound(v: Vec3i)
    requires
        abs_sp(v.x as int) <= MAX_COORD_AXIS,
        abs_sp(v.y as int) <= MAX_COORD_AXIS,
        abs_sp(v.z as int) <= MAX_COORD_AXIS,
    ensures
        0 <= v.x * v.x <= 1_000_000_000_000_000_000,
        0 <= v.y * v.y <= 1_000_000_000_000_000_000,
        0 <= v.z * v.z <= 1_000_000_000_000_000_000,
{
    assert(0 <= v.x * v.x <= 1_000_000_000_000_000_000) by (nonlinear_arith)
        requires -1_000_000_000 <= v.x as int <= 1_000_000_000;
    assert(0 <= v.y * v.y <= 1_000_000_000_000_000_000) by (nonlinear_arith)
        requires -1_000_000_000 <= v.y as int <= 1_000_000_000;
    assert(0 <= v.z * v.z <= 1_000_000_000_000_000_000) by (nonlinear_arith)
        requires -1_000_000_000 <= v.z as int <= 1_000_000_000;
}

/// A numerator strictly below the denominator divides to below 1000 when
/// both are scaled by 1000.
proof fn lemma_strict_ratio(a: int, b: int)
    requires
        0 <= a < b,
    ensures
        a * 1000 / b < 1000,
{
    assert(a * 1000 <= (b - 1) * 1000) by (nonlinear_arith)
        requires a <= b - 1;
    vstd::arithmetic::div_mod::lemma_div_is_ordered(a * 1000, (b - 1) * 1000 + 999, b);
    assert((b - 1) * 1000 + 999 == b * 1000 - 1) by (nonlinear_arith);
    assert((b * 1000 - 1) / b == 999) by {
        vstd::arithmetic::div_mod::lemma_fundamental_div_mod_converse(
            b * 1000 - 1, b, 999, b - 1);
    }
}


// ---------------------------------------------------------------------------
// Food attraction.

/// The acceleration a visible food item at displacement `rel` contributes:
/// the decoded affinity scaled by the square root of the capped closeness
/// ratio, along the direction to the food; zero at (near-)zero distance and
/// at or beyond the force range.
pub open spec fn food_accel_sp(p: PhysicsParams, rel: Vec3i, food_force: int)
    -> (int, int, int) {
    let dist = isqrt_sp(norm_sq_sp(rel));
    if dist < 1 || dist >= p.max_force_range {
        (0, 0, 0)
    } else {
        let ratio = 2 * (p.food_radius as int) * 1000 / dist;
        let capped = if ratio > 1000 { 1000 } else { ratio };
        let factor = isqrt_sp(capped * 1000);
        let mag = scaled_sp(food_force, factor, 1000);
        (
            scaled_sp(rel.x as int, mag, dist),
            scaled_sp(rel.y as int, mag, dist),
            scaled_sp(rel.z as int, mag, dist),
        )
    }
}

/// Compute the food-attraction acceleration.
pub fn food_acceleration(p: &PhysicsParams, rel: Vec3i, food_force: i64) -> (r: Vec3i)
    requires
        p.wf(),
        abs_sp(rel.x as int) <= MAX_COORD_AXIS,
        abs_sp(rel.y as int) <= MAX_COORD_AXIS,
        abs_sp(rel.z as int) <= MAX_COORD_AXIS,
        abs_sp(food_force as int) <= 2000,
    ensures
        (r.x as int, r.y as int, r.z as int) == food_accel_sp(*p, rel, food_force as int),
        abs_sp(r.x as int) <= 2000,
        abs_sp(r.y as int) <= 2000,
        abs_sp(r.z as int) <= 2000,
{
    proof {
        lemma_axis_squares_bound(rel);
    }
    let d2 = rel.x * rel.x + rel.y * rel.y + rel.z * rel.z;
    let dist = isqrt(d2);
    if dist < 1 || dist >= p.max_force_range {
        return Vec3i { x: 0, y: 0, z: 0 };
    }
    proof {
        assert(0 <= 2 * p.food_radius * 1000) by (nonlinear_arith)
            requires p.food_radius >= 0;
        vstd::arithmetic::div_mod::lemma_div_pos_is_pos(2 * p.food_radius * 1000, dist as int);
    }
    let ratio = 2 * p.food_radius * 1000 / dist;
    let capped = if ratio > 1000 { 1000 } else { ratio };
    let factor = isqrt(capped * 1000);
    proof {
        crate::fixed::lemma_isqrt_monotone(capped * 1000, 1_000_000);
        crate::fixed::lemma_isqrt_of_square(1000);
    }
    let mag = scaled_i64(food_force, factor, 1000);
    proof {
        assert(abs_sp(food_force as int) * abs_sp(factor as int)
            == abs_sp(factor as int) * abs_sp(food_force as int)) by (nonlinear_arith);
        assert(scaled_sp(food_force as int, factor as int, 1000)
            == scaled_sp(factor as int, food_force as int, 1000));
        lemma_scaled_direction_bound(factor as int, food_force as int, 1000, 2000);
        lemma_axis_le_norm(rel);
        lemma_scaled_direction_bound(rel.x as int, mag as int, dist as int, 2000);
        lemma_scaled_direction_bound(rel.y as int, mag as int, dist as int, 2000);
        lemma_scaled_direction_bound(rel.z as int, mag as int, dist as int, 2000);
    }
    Vec3i {
        x: scaled_i64(rel.x, mag, dist),
        y: scaled_i64(rel.y, mag, dist),
        z: scaled_i64(rel.z, mag, dist),
    }
}

// ---------------------------------------------------------------------------
// The neighbor query.

/// Whether particle `j` is a neighbor candidate of particle `i`: a different
/// particle of the same population within the force range, under the active
/// topology.
pub open spec fn neighbor_q_sp(p: PhysicsParams, ps: Seq<ParticleState>, i: int, j: int)
    -> bool {
    &&& j != i
    &&& ps[j].sim_id == ps[i].sim_id
    &&& delta_norm_sq_sp(p, ps[i].position, ps[j].position)
        <= (p.max_force_range as int) * (p.max_force_range as int)
}

/// The neighbor candidates of particle `i` among the first `n` particles, in
/// index order.
pub open spec fn neighbors_sp(p: PhysicsParams, ps: Seq<ParticleState>, i: int, n: int)
    -> Seq<usize>
    decreases n,
{
    if n <= 0 {
        Seq::empty()
    } else {
        let rest = neighbors_sp(p, ps, i, n - 1);
        if neighbor_q_sp(p, ps, i, n - 1) { rest.push((n - 1) as usize) } else { rest }
    }
}

/// Neighbor indices stay below `n`.
pub proof fn lemma_neighbors_in_range(p: PhysicsParams, ps: Seq<ParticleState>, i: int, n: int)
    requires
        0 <= n <= ps.len(),
        n <= usize::MAX,
    ensures
        forall|k: int| 0 <= k < neighbors_sp(p, ps, i, n).len()
            ==> (#[trigger] neighbors_sp(p, ps, i, n)[k]) < n
                && neighbor_q_sp(p, ps, i, neighbors_sp(p, ps, i, n)[k] as int),
    decreases n,
{
    if n > 0 {
        lemma_neighbors_in_range(p, ps, i, n - 1);
        let prev = neighbors_sp(p, ps, i, n - 1);
        let cur = neighbors_sp(p, ps, i, n);
        if neighbor_q_sp(p, ps, i, n - 1) {
            assert(cur == prev.push((n - 1) as usize));
            assert(cur[prev.len() as int] == (n - 1) as usize);
            assert(forall|k: int| 0 <= k < prev.len() ==> cur[k] == prev[k]);
        } else {
            assert(cur == prev);
        }
    }
}

/// The neighbor-candidate list is strictly increasing, and holds exactly the
/// indices below `n` that qualify.
pub proof fn lemma_neighbors_strict(p: PhysicsParams, ps: Seq<ParticleState>, i: int, n: int)
    requires
        0 <= n <= ps.len(),
        n <= usize::MAX,
    ensures
        forall|k1: int, k2: int|
            0 <= k1 < k2 < neighbors_sp(p, ps, i, n).len()
            ==> (#[trigger] neighbors_sp(p, ps, i, n)[k1])
                < (#[trigger] neighbors_sp(p, ps, i, n)[k2]),
        forall|v: usize| #[trigger] neighbors_sp(p, ps, i, n).contains(v)
            <==> ((v as int) < n && neighbor_q_sp(p, ps, i, v as int)),
    decreases n,
{
    lemma_neighbors_in_range(p, ps, i, n);
    if n > 0 {
        lemma_neighbors_strict(p, ps, i, n - 1);
        lemma_neighbors_in_range(p, ps, i, n - 1);
        let prev = neighbors_sp(p, ps, i, n - 1);
        let cur = neighbors_sp(p, ps, i, n);
        if neighbor_q_sp(p, ps, i, n - 1) {
            assert(cur == prev.push((n - 1) as usize));
            assert(forall|k: int| 0 <= k < prev.len() ==> cur[k] == prev[k]);
            assert(cur[prev.len() as int] == (n - 1) as usize);
            assert forall|v: usize| #[trigger] cur.contains(v)
                implies ((v as int) < n && neighbor_q_sp(p, ps, i, v as int)) by {
                let t = choose|t: int| 0 <= t < cur.len() && cur[t] == v;
                if t < prev.len() {
                    assert(prev[t] == v);
                    assert(prev.contains(v));
                }
            }
            assert forall|v: usize| (v as int) < n && neighbor_q_sp(p, ps, i, v as int)
                implies #[trigger] cur.contains(v) by {
                if (v as int) < n - 1 {
                    assert(prev.contains(v));
                    let t = choose|t: int| 0 <= t < prev.len() && prev[t] == v;
                    assert(cur[t] == v);
                } else {
                    assert(v == (n - 1) as usize);
                    assert(cur[prev.len() as int] == v);
                }
            }
        } else {
            assert(cur == prev);
            assert forall|v: usize| #[trigger] cur.contains(v)
                implies ((v as int) < n && neighbor_q_sp(p, ps, i, v as int)) by {
                assert(prev.contains(v));
            }
            assert forall|v: usize| (v as int) < n && neighbor_q_sp(p, ps, i, v as int)
                implies #[trigger] cur.contains(v) by {
                if (v as int) < n - 1 {
                    assert(prev.contains(v));
                } else {
                    assert((v as int) == n - 1);
                    assert(!neighbor_q_sp(p, ps, i, v as int));
                }
            }
        }
    } else {
        assert(neighbors_sp(p, ps, i, n).len() == 0);
        assert forall|v: usize| #[trigger] neighbors_sp(p, ps, i, n).contains(v)
            implies false by {
            let t = choose|t: int| 0 <= t < neighbors_sp(p, ps, i, n).len()
                && neighbors_sp(p, ps, i, n)[t] == v;
        }
    }
}

/// The candidate neighbors of one particle: every other particle of the same
/// population within the force range, with the toroidal metric in teleport
/// mode, in index order.  The querying particle itself is never returned,
/// and no candidate crosses a population boundary.
pub fn get_torus_neighbors(
    p: &PhysicsParams,
    particles: &Vec<ParticleState>,
    index: usize,
) -> (r: Vec<usize>)
    requires
        p.wf(),
        index < particles@.len(),
        forall|k: int| 0 <= k < particles@.len()
            ==> p.grid.contains_sp((#[trigger] particles@[k]).position),
    ensures
        r@ == neighbors_sp(*p, particles@, index as int, particles@.len() as int),
        forall|k: int| 0 <= k < r@.len()
            ==> (#[trigger] r@[k]) < particles@.len()
                && neighbor_q_sp(*p, particles@, index as int, r@[k] as int),
{
    let n = particles.len();
    let here = particles[index].position;
    let my_sim = particles[index].sim_id;
    proof {
        assert(p.max_force_range * p.max_force_range <= 1_000_000_000_000) by (nonlinear_arith)
            requires 1 <= p.max_force_range <= 1_000_000;
    }
    let range_sq = p.max_force_range * p.max_force_range;
    let mut r: Vec<usize> = Vec::new();
    let mut j: usize = 0;
    while j < n
        invariant
            p.wf(),
            index < n == particles@.len(),
            here == particles@[index as int].position,
            my_sim == particles@[index as int].sim_id,
            range_sq == p.max_force_range * p.max_force_range,
            forall|k: int| 0 <= k < particles@.len()
                ==> p.grid.contains_sp((#[trigger] particles@[k]).position),
            0 <= j <= n,
            r@ == neighbors_sp(*p, particles@, index as int, j as int),
        decreases n - j,
    {
        if j != index && particles[j].sim_id == my_sim {
            let rel = delta_vec(p, here, particles[j].position);
            proof {
                lemma_axis_squares_bound(rel);
            }
            let d2 = rel.x * rel.x + rel.y * rel.y + rel.z * rel.z;
            if d2 <= range_sq {
                r.push(j);
            }
        }
        j = j + 1;
    }
    proof {
        lemma_neighbors_in_range(*p, particles@, index as int, n as int);
    }
    r
}

/// The bounded-mode neighbor query through the spatial grid: the 3x3x3 cell
/// block around the querying particle supplies the candidates (cells sized to
/// the force range cover everything within it), which are then put back into
/// snapshot order and filtered by exact distance.  The result is the same
/// canonical candidate list the linear scan yields, at sub-linear cost for a
/// well-spread population.
pub fn grid_candidate_neighbors(
    p: &PhysicsParams,
    grid: &crate::spatial::SpatialGrid,
    particles: &Vec<ParticleState>,
    index: usize,
) -> (r: Vec<usize>)
    requires
        p.wf(),
        p.boundary_mode == BoundaryMode::Bounce,
        grid.wf(particles@),
        grid.cell_size == p.max_force_range,
        index < particles@.len(),
        forall|k: int| 0 <= k < particles@.len()
            ==> p.grid.contains_sp((#[trigger] particles@[k]).position),
    ensures
        r@ == neighbors_sp(*p, particles@, index as int, particles@.len() as int),
        forall|k: int| 0 <= k < r@.len()
            ==> (#[trigger] r@[k]) < particles@.len()
                && neighbor_q_sp(*p, particles@, index as int, r@[k] as int),
{
    let n = particles.len();
    let here = particles[index].position;
    let my_sim = particles[index].sim_id;
    proof {
        assert(p.grid.contains_sp(here));
    }
    let candidates = grid.get_potential_neighbors(particles, here, my_sim);
    let sorted = crate::spatial::sort_indices(&candidates);
    let cs = grid.cell_size;
    proof {
        // The ordered candidates are duplicate-free and carry the candidate
        // characterization over from the grid query.
        candidates@.lemma_multiset_has_no_duplicates();
        sorted@.lemma_multiset_has_no_duplicates_conv();
        assert forall|v: usize| #[trigger] sorted@.contains(v)
            implies candidates@.contains(v) by {
            vstd::seq_lib::to_multiset_contains(sorted@, v);
            vstd::seq_lib::to_multiset_contains(candidates@, v);
        }
        assert forall|v: usize| #[trigger] candidates@.contains(v)
            implies sorted@.contains(v) by {
            vstd::seq_lib::to_multiset_contains(sorted@, v);
            vstd::seq_lib::to_multiset_contains(candidates@, v);
        }
        // Completeness: everything that qualifies is a candidate, because a
        // within-range particle is at most one cell away on every axis.
        assert forall|j: int|
            0 <= j < n && neighbor_q_sp(*p, particles@, index as int, j)
            implies candidates@.contains(j as usize) by {
            let q = particles@[j].position;
            let csi = cs as int;
            let d2 = delta_norm_sq_sp(*p, here, q);
            let (dx, dy, dz) = delta_sp(*p, here, q);
            assert(dx == q.x - here.x && dy == q.y - here.y && dz == q.z - here.z);
            lemma_axis_within(dx, dy, dz, csi);
            crate::spatial::lemma_adjacent_cells(q.x as int, here.x as int, csi);
            crate::spatial::lemma_adjacent_cells(q.y as int, here.y as int, csi);
            crate::spatial::lemma_adjacent_cells(q.z as int, here.z as int, csi);
            assert(candidates@.contains((j as usize)));
        }
    }
    proof {
        assert(p.max_force_range * p.max_force_range <= 1_000_000_000_000)
            by (nonlinear_arith)
            requires 1 <= p.max_force_range <= 1_000_000;
    }
    let range_sq = p.max_force_range * p.max_force_range;
    let mut r: Vec<usize> = Vec::new();
    let mut k: usize = 0;
    while k < sorted.len()
        invariant
            p.wf(),
            p.boundary_mode == BoundaryMode::Bounce,
            n == particles@.len(),
            index < n,
            here == particles@[index as int].position,
            my_sim == particles@[index as int].sim_id,
            range_sq == p.max_force_range * p.max_force_range,
            forall|m: int| 0 <= m < particles@.len()
                ==> p.grid.contains_sp((#[trigger] particles@[m]).position),
            forall|k1: int, k2: int| 0 <= k1 < k2 < sorted@.len()
                ==> #[trigger] sorted@[k1] <= #[trigger] sorted@[k2],
            sorted@.no_duplicates(),
            forall|v: usize| #[trigger] sorted@.contains(v)
                ==> (v as int) < n && particles@[v as int].sim_id == my_sim,
            forall|j: int|
                0 <= j < n && neighbor_q_sp(*p, particles@, index as int, j)
                ==> sorted@.contains(j as usize),
            0 <= k <= sorted@.len(),
            forall|t: int| 0 <= t < r@.len()
                ==> exists|k2: int| 0 <= k2 < k && sorted@[k2] == #[trigger] r@[t],
            forall|t1: int, t2: int| 0 <= t1 < t2 < r@.len()
                ==> #[trigger] r@[t1] < #[trigger] r@[t2],
            forall|t: int| 0 <= t < r@.len()
                ==> ((#[trigger] r@[t]) as int) < n
                    && neighbor_q_sp(*p, particles@, index as int, r@[t] as int),
            forall|k0: int|
                0 <= k0 < k
                && neighbor_q_sp(*p, particles@, index as int, (#[trigger] sorted@[k0]) as int)
                ==> r@.contains(sorted@[k0]),
        decreases sorted@.len() - k,
    {
        let j = sorted[k];
        let ghost r_at_start = r@;
        proof {
            assert(sorted@.contains(sorted@[k as int]));
        }
        let mut pushed = false;
        if j != index {
            let rel = delta_vec(p, here, particles[j].position);
            proof {
                lemma_axis_squares_bound(rel);
            }
            let d2 = rel.x * rel.x + rel.y * rel.y + rel.z * rel.z;
            if d2 <= range_sq {
                proof {
                    let ghost jv = sorted@[k as int];
                    assert forall|t: int| 0 <= t < r@.len()
                        implies #[trigger] r@[t] < jv by {
                        let k2 = choose|k2: int| 0 <= k2 < k && sorted@[k2] == r@[t];
                        assert(sorted@[k2] <= sorted@[k as int]);
                        assert(sorted@[k2] != sorted@[k as int]);
                    }
                }
                r.push(j);
                pushed = true;
            }
        }
        proof {
            let jv = sorted@[k as int];
            if neighbor_q_sp(*p, particles@, index as int, jv as int) {
                assert(pushed);
                assert(r@[r@.len() - 1] == jv);
                assert(r@.contains(jv));
            }
            assert forall|k0: int|
                0 <= k0 < k + 1
                && neighbor_q_sp(*p, particles@, index as int, (#[trigger] sorted@[k0]) as int)
                implies r@.contains(sorted@[k0]) by {
                if k0 < k {
                    assert(r_at_start.contains(sorted@[k0]));
                    let t = choose|t: int| 0 <= t < r_at_start.len()
                        && r_at_start[t] == sorted@[k0];
                    assert(r@[t] == sorted@[k0]);
                }
            }
        }
        k = k + 1;
    }
    proof {
        let nb = neighbors_sp(*p, particles@, index as int, n as int);
        lemma_neighbors_strict(*p, particles@, index as int, n as int);
        // Same membership on both sides.
        assert forall|v: usize| #[trigger] r@.contains(v) implies nb.contains(v) by {
            let t = choose|t: int| 0 <= t < r@.len() && r@[t] == v;
        }
        assert forall|v: usize| #[trigger] nb.contains(v) implies r@.contains(v) by {
            assert(sorted@.contains(v));
            let k0 = choose|k0: int| 0 <= k0 < sorted@.len() && sorted@[k0] == v;
            assert(neighbor_q_sp(*p, particles@, index as int, (sorted@[k0]) as int));
        }
        // Both duplicate-free, so equal membership gives equal multisets.
        assert(r@.no_duplicates());
        assert(nb.no_duplicates());
        r@.lemma_multiset_has_no_duplicates();
        nb.lemma_multiset_has_no_duplicates();
        assert forall|v: usize| r@.to_multiset().count(v) == #[trigger] nb.to_multiset().count(v)
            by {
            vstd::seq_lib::to_multiset_contains(r@, v);
            vstd::seq_lib::to_multiset_contains(nb, v);
        }
        assert(r@.to_multiset() =~= nb.to_multiset());
        // Equal multisets in the same (total) order are the same sequence.
        let leq = |a: usize, b: usize| a <= b;
        assert(vstd::relations::sorted_by(r@, leq)) by {
            assert forall|t1: int, t2: int| 0 <= t1 < t2 < r@.len()
                implies leq(r@[t1], r@[t2]) by {
                assert(r@[t1] < r@[t2]);
            }
        }
        assert(vstd::relations::sorted_by(nb, leq)) by {
            assert forall|t1: int, t2: int| 0 <= t1 < t2 < nb.len()
                implies leq(nb[t1], nb[t2]) by {
                assert(nb[t1] < nb[t2]);
            }
        }
        assert(vstd::relations::total_ordering(leq)) by {
            assert(vstd::relations::reflexive(leq)) by {
                assert(forall|x: usize| #[trigger] leq(x, x));
            }
            assert(vstd::relations::antisymmetric(leq)) by {
                assert(forall|x: usize, y: usize|
                    #[trigger] leq(x, y) && #[trigger] leq(y, x) ==> x == y);
            }
            assert(vstd::relations::transitive(leq)) by {
                assert(forall|x: usize, y: usize, z: usize|
                    #[trigger] leq(x, y) && #[trigger] leq(y, z) ==> leq(x, z));
            }
            assert(vstd::relations::strongly_connected(leq)) by {
                assert(forall|x: usize, y: usize| #[trigger] leq(x, y) || #[trigger] leq(y, x));
            }
        }
        vstd::seq_lib::lemma_sorted_unique(r@, nb, leq);
        assert(r@ =~= nb);
    }
    r
}

/// Axes of a within-range displacement are each within the range.
proof fn lemma_axis_within(dx: int, dy: int, dz: int, cs: int)
    requires
        cs >= 1,
        dx * dx + dy * dy + dz * dz <= cs * cs,
    ensures
        -cs <= dx <= cs,
        -cs <= dy <= cs,
        -cs <= dz <= cs,
{
    assert(-cs <= dx <= cs && -cs <= dy <= cs && -cs <= dz <= cs) by (nonlinear_arith)
        requires cs >= 1, dx * dx + dy * dy + dz * dz <= cs * cs;
}

// ---------------------------------------------------------------------------
// Force accumulation.

/// Fold the pair contributions of the first `k` neighbor candidates, capping
/// the charged interactions at `MAX_INTERACTIONS`; the fourth component is
/// the number of interactions charged.
pub open spec fn pair_fold_sp(
    p: PhysicsParams,
    g: Genotype,
    ps: Seq<ParticleState>,
    i: int,
    lst: Seq<usize>,
    k: int,
) -> (int, int, int, int)
    decreases k,
{
    if k <= 0 {
        (0, 0, 0, 0)
    } else {
        let (ax, ay, az, c) = pair_fold_sp(p, g, ps, i, lst, k - 1);
        if c >= MAX_INTERACTIONS {
            (ax, ay, az, c)
        } else {
            let j = lst[k - 1] as int;
            let (dx, dy, dz) = delta_sp(p, ps[i].position, ps[j].position);
            let d2 = dx * dx + dy * dy + dz * dz;
            if d2 > (p.max_force_range as int) * (p.max_force_range as int) || d2 < 1000 {
                (ax, ay, az, c)
            } else {
                let rel = Vec3i { x: dx as i64, y: dy as i64, z: dz as i64 };
                let attraction = g.force_at(ps[i].type_index as int, ps[j].type_index as int);
                let (bx, by, bz) = pair_accel_sp(p, rel, attraction as int);
                (ax + bx, ay + by, az + bz, c + 1)
            }
        }
    }
}

/// Fold the contributions of the first `k` food items.
pub open spec fn food_fold_sp(
    p: PhysicsParams,
    here: Vec3i,
    ff: int,
    fs: Seq<FoodItem>,
    k: int,
) -> (int, int, int)
    decreases k,
{
    if k <= 0 {
        (0, 0, 0)
    } else {
        let (ax, ay, az) = food_fold_sp(p, here, ff, fs, k - 1);
        let f = fs[k - 1];
        if !f.visible {
            (ax, ay, az)
        } else {
            let (dx, dy, dz) = delta_sp(p, here, f.position);
            let rel = Vec3i { x: dx as i64, y: dy as i64, z: dz as i64 };
            let (bx, by, bz) = food_accel_sp(p, rel, ff);
            (ax + bx, ay + by, az + bz)
        }
    }
}

/// The total force on particle `i`: the capped pair fold over its neighbor
/// candidates plus, when the decoded food affinity is not negligible, the
/// food fold; zero when the particle's population has no genome.
pub open spec fn total_force_sp(
    p: PhysicsParams,
    gs: Seq<Genotype>,
    ps: Seq<ParticleState>,
    fs: Seq<FoodItem>,
    i: int,
) -> (int, int, int) {
    if ps[i].sim_id >= gs.len() {
        (0, 0, 0)
    } else {
        let g = gs[ps[i].sim_id as int];
        let lst = neighbors_sp(p, ps, i, ps.len() as int);
        let (ax, ay, az, c) = pair_fold_sp(p, g, ps, i, lst, lst.len() as int);
        let ff = g.food_force_at(ps[i].type_index as int);
        if abs_sp(ff as int) <= 1 {
            (ax, ay, az)
        } else {
            let (fx, fy, fz) = food_fold_sp(p, ps[i].position, ff as int, fs, fs.len() as int);
            (ax + fx, ay + fy, az + fz)
        }
    }
}

/// Compute the force on every particle from the read-only snapshot of the
/// previous tick: pairwise interactions gated by the neighbor query, capped
/// per particle, plus the food-attraction terms.
pub fn calculate_forces_with_torus(
    p: &PhysicsParams,
    genotypes: &Vec<Genotype>,
    particles: &Vec<ParticleState>,
    foods: &Vec<FoodItem>,
) -> (forces: Vec<Vec3i>)
    requires
        p.wf(),
        forall|k: int| 0 <= k < genotypes@.len() ==> (#[trigger] genotypes@[k]).wf(),
        forall|k: int| 0 <= k < particles@.len()
            ==> p.grid.contains_sp((#[trigger] particles@[k]).position),
        forall|k: int| 0 <= k < foods@.len()
            ==> p.grid.contains_sp((#[trigger] foods@[k]).position),
        foods@.len() <= MAX_FOODS,
    ensures
        forces@.len() == particles@.len(),
        forall|i: int| 0 <= i < particles@.len() ==> {
            let f = #[trigger] forces@[i];
            (f.x as int, f.y as int, f.z as int)
                == total_force_sp(*p, genotypes@, particles@, foods@, i)
        },
        forall|i: int| 0 <= i < forces@.len() ==> {
            let f = #[trigger] forces@[i];
            abs_sp(f.x as int) <= FORCE_BOUND
                && abs_sp(f.y as int) <= FORCE_BOUND
                && abs_sp(f.z as int) <= FORCE_BOUND
        },
    {
    let n = particles.len();

    // In bounce mode the uniform grid, rebuilt once per tick with cells
    // sized to the force range, answers the candidate queries sub-linearly.
    let grid = match p.boundary_mode {
        BoundaryMode::Bounce => {
            proof {
                assert forall|k: int| 0 <= k < particles@.len() implies {
                    let pos = (#[trigger] particles@[k]).position;
                    &&& -MAX_COORD_AXIS <= pos.x <= MAX_COORD_AXIS
                    &&& -MAX_COORD_AXIS <= pos.y <= MAX_COORD_AXIS
                    &&& -MAX_COORD_AXIS <= pos.z <= MAX_COORD_AXIS
                } by {
                    assert(p.grid.contains_sp(particles@[k].position));
                }
            }
            Some(crate::spatial::SpatialGrid::rebuild(particles, p.max_force_range))
        },
        BoundaryMode::Teleport => None,
    };
    let mut forces: Vec<Vec3i> = Vec::new();
    let mut i: usize = 0;
    while i < n
        invariant
            p.wf(),
            forall|k: int| 0 <= k < genotypes@.len() ==> (#[trigger] genotypes@[k]).wf(),
            forall|k: int| 0 <= k < particles@.len()
                ==> p.grid.contains_sp((#[trigger] particles@[k]).position),
            forall|k: int| 0 <= k < foods@.len()
                ==> p.grid.contains_sp((#[trigger] foods@[k]).position),
            foods@.len() <= MAX_FOODS,
            n == particles@.len(),
            (grid is Some) ==> (grid->0).wf(particles@)
                && (grid->0).cell_size == p.max_force_range
                && p.boundary_mode == BoundaryMode::Bounce,
            (grid is None) ==> p.boundary_mode == BoundaryMode::Teleport,
            0 <= i <= n,
            forces@.len() == i,
            forall|k: int| 0 <= k < i ==> {
                let f = #[trigger] forces@[k];
                (f.x as int, f.y as int, f.z as int)
                    == total_force_sp(*p, genotypes@, particles@, foods@, k)
            },
            forall|k: int| 0 <= k < i ==> {
                let f = #[trigger] forces@[k];
                abs_sp(f.x as int) <= FORCE_BOUND
                    && abs_sp(f.y as int) <= FORCE_BOUND
                    && abs_sp(f.z as int) <= FORCE_BOUND
            },
        decreases n - i,
    {
        let sim_id = particles[i].sim_id;
        if sim_id >= genotypes.len() {
            forces.push(Vec3i { x: 0, y: 0, z: 0 });
            i = i + 1;
            continue;
        }
        let here = particles[i].position;
        let my_type = particles[i].type_index;

        // Pair interactions over the neighbor candidates, capped: from the
        // grid in bounce mode, from the direct toroidal scan otherwise.
        let neighbors = match &grid {
            Some(g2) => grid_candidate_neighbors(p, g2, particles, i),
            None => get_torus_neighbors(p, particles, i),
        };
        proof {
            assert(p.max_force_range * p.max_force_range <= 1_000_000_000_000)
                by (nonlinear_arith)
                requires 1 <= p.max_force_range <= 1_000_000;
        }
        let range_sq = p.max_force_range * p.max_force_range;
        let mut ax: i64 = 0;
        let mut ay: i64 = 0;
        let mut az: i64 = 0;
        let mut count: usize = 0;
        let mut k: usize = 0;
        while k < neighbors.len() && count < MAX_INTERACTIONS
            invariant
                p.wf(),
                forall|m: int| 0 <= m < genotypes@.len() ==> (#[trigger] genotypes@[m]).wf(),
                forall|m: int| 0 <= m < particles@.len()
                    ==> p.grid.contains_sp((#[trigger] particles@[m]).position),
                n == particles@.len(),
                0 <= i < n,
                sim_id == particles@[i as int].sim_id,
                sim_id < genotypes@.len(),
                here == particles@[i as int].position,
                my_type == particles@[i as int].type_index,
                range_sq == p.max_force_range * p.max_force_range,
                neighbors@ == neighbors_sp(*p, particles@, i as int, n as int),
                forall|m: int| 0 <= m < neighbors@.len()
                    ==> (#[trigger] neighbors@[m]) < particles@.len(),
                0 <= k <= neighbors@.len(),
                0 <= count <= MAX_INTERACTIONS,
                (ax as int, ay as int, az as int, count as int)
                    == pair_fold_sp(*p, genotypes@[sim_id as int], particles@, i as int,
                        neighbors@, k as int),
                abs_sp(ax as int) <= count * (2 * p.max_force_range),
                abs_sp(ay as int) <= count * (2 * p.max_force_range),
                abs_sp(az as int) <= count * (2 * p.max_force_range),
            decreases neighbors@.len() - k,
        {
            let j = neighbors[k];
            let rel = delta_vec(p, here, particles[j].position);
            proof {
                lemma_axis_squares_bound(rel);
            }
            let d2 = rel.x * rel.x + rel.y * rel.y + rel.z * rel.z;
            if !(d2 > range_sq || d2 < 1000) {
                let genome = &genotypes[sim_id];
                let attraction = genome.get_force(my_type, particles[j].type_index);
                let accel = calculate_acceleration(p, rel, attraction);
                proof {
                    assert((count as int + 1) * (2 * p.max_force_range)
                        == count as int * (2 * p.max_force_range) + 2 * p.max_force_range)
                        by (nonlinear_arith);
                    assert(count as int * (2 * p.max_force_range) <= 100 * 2_000_000)
                        by (nonlinear_arith)
                        requires
                            0 <= count as int <= 100,
                            0 <= 2 * p.max_force_range <= 2_000_000;
                }
                ax = ax + accel.x;
                ay = ay + accel.y;
                az = az + accel.z;
                count = count + 1;
            }
            k = k + 1;
        }
        if k < neighbors.len() {
            proof {
                lemma_pair_fold_stops(*p, genotypes@[sim_id as int], particles@, i as int,
                    neighbors@, k as int, neighbors@.len() as int);
            }
        }
        proof {
            assert(count as int * (2 * p.max_force_range) <= 100 * 2_000_000)
                by (nonlinear_arith)
                requires 0 <= count as int <= 100, 0 <= 2 * p.max_force_range <= 2_000_000;
        }

        // Food attraction.
        let genome = &genotypes[sim_id];
        let ff = genome.get_food_force(my_type);
        if abs_i64(ff) > 1 {
            let mut fx: i64 = 0;
            let mut fy: i64 = 0;
            let mut fz: i64 = 0;
            let mut q: usize = 0;
            let fl = foods.len();
            while q < fl
                invariant
                    p.wf(),
                    forall|m: int| 0 <= m < foods@.len()
                        ==> p.grid.contains_sp((#[trigger] foods@[m]).position),
                    p.grid.contains_sp(here),
                    fl == foods@.len() <= MAX_FOODS,
                    abs_sp(ff as int) <= 2000,
                    0 <= q <= fl,
                    (fx as int, fy as int, fz as int)
                        == food_fold_sp(*p, here, ff as int, foods@, q as int),
                    abs_sp(fx as int) <= q * 2000,
                    abs_sp(fy as int) <= q * 2000,
                    abs_sp(fz as int) <= q * 2000,
                decreases fl - q,
            {
                if foods[q].visible {
                    let rel = delta_vec(p, here, foods[q].position);
                    let accel = food_acceleration(p, rel, ff);
                    proof {
                        assert((q as int + 1) * 2000 == q as int * 2000 + 2000)
                            by (nonlinear_arith);
                        assert(q as int * 2000 <= 10_000 * 2000) by (nonlinear_arith)
                            requires 0 <= q as int <= 10_000;
                    }
                    fx = fx + accel.x;
                    fy = fy + accel.y;
                    fz = fz + accel.z;
                } else {
                    proof {
                        assert((q as int + 1) * 2000 == q as int * 2000 + 2000)
                            by (nonlinear_arith);
                    }
                }
                q = q + 1;
            }
            proof {
                assert(q as int * 2000 <= 10_000 * 2000) by (nonlinear_arith)
                    requires 0 <= q as int <= 10_000;
            }
            forces.push(Vec3i { x: ax + fx, y: ay + fy, z: az + fz });
        } else {
            forces.push(Vec3i { x: ax, y: ay, z: az });
        }
        i = i + 1;
    }
    forces
}

/// Once the interaction cap is reached, extending the fold changes nothing.
proof fn lemma_pair_fold_stops(
    p: PhysicsParams,
    g: Genotype,
    ps: Seq<ParticleState>,
    i: int,
    lst: Seq<usize>,
    k: int,
    n: int,
)
    requires
        0 <= k <= n,
        pair_fold_sp(p, g, ps, i, lst, k).3 >= MAX_INTERACTIONS,
    ensures
        pair_fold_sp(p, g, ps, i, lst, n) == pair_fold_sp(p, g, ps, i, lst, k),
    decreases n - k,
{
    if k < n {
        lemma_pair_fold_count_monotone(p, g, ps, i, lst, k, k + 1);
        lemma_pair_fold_stops(p, g, ps, i, lst, k + 1, n);
    }
}

/// The charged-interaction count never decreases as the fold extends.
proof fn lemma_pair_fold_count_monotone(
    p: PhysicsParams,
    g: Genotype,
    ps: Seq<ParticleState>,
    i: int,
    lst: Seq<usize>,
    k1: int,
    k2: int,
)
    requires
        0 <= k1 <= k2,
    ensures
        pair_fold_sp(p, g, ps, i, lst, k1).3 <= pair_fold_sp(p, g, ps, i, lst, k2).3,
    decreases k2 - k1,
{
    if k1 < k2 {
        lemma_pair_fold_count_monotone(p, g, ps, i, lst, k1, k2 - 1);
    }
}


// ---------------------------------------------------------------------------
// Integration: velocity, damping, speed clamp, movement, boundary.

/// One velocity axis after the acceleration and the frame-rate-independent
/// exponential damping.
pub open spec fn vel_axis_sp(p: PhysicsParams, v: int, f: int) -> int {
    scaled_sp(v + scaled_sp(f, p.dt as int, 1000), p.damping as int, 1000)
}

/// One velocity axis after the speed clamp.
pub open spec fn clamp_axis_sp(p: PhysicsParams, v: int, speed: int) -> int {
    if speed > p.max_velocity { scaled_sp(v, p.max_velocity as int, speed) } else { v }
}

/// One position axis reflected off the wall (bounce mode): past the margin
/// the position snaps to it and the velocity reverses, damped.
pub open spec fn bounce_sp(x: int, v: int, lim: int, damp: int) -> (int, int) {
    if x > lim {
        (lim, -scaled_sp(v, damp, 1000))
    } else if x < -lim {
        (-lim, -scaled_sp(v, damp, 1000))
    } else {
        (x, v)
    }
}

/// The full state of one particle after one fixed physical timestep under
/// force `f`.
pub open spec fn step_particle_sp(p: PhysicsParams, s: ParticleState, f: Vec3i)
    -> ParticleState {
    let vx = vel_axis_sp(p, s.velocity.x as int, f.x as int);
    let vy = vel_axis_sp(p, s.velocity.y as int, f.y as int);
    let vz = vel_axis_sp(p, s.velocity.z as int, f.z as int);
    let speed = isqrt_sp(vx * vx + vy * vy + vz * vz);
    let cx = clamp_axis_sp(p, vx, speed);
    let cy = clamp_axis_sp(p, vy, speed);
    let cz = clamp_axis_sp(p, vz, speed);
    let px = s.position.x + scaled_sp(cx, p.dt as int, 1000);
    let py = s.position.y + scaled_sp(cy, p.dt as int, 1000);
    let pz = s.position.z + scaled_sp(cz, p.dt as int, 1000);
    if p.boundary_mode == BoundaryMode::Teleport {
        ParticleState {
            position: Vec3i {
                x: wrap_coord_sp(px, p.grid.width as int) as i64,
                y: wrap_coord_sp(py, p.grid.height as int) as i64,
                z: wrap_coord_sp(pz, p.grid.depth as int) as i64,
            },
            velocity: Vec3i { x: cx as i64, y: cy as i64, z: cz as i64 },
            type_index: s.type_index,
            sim_id: s.sim_id,
        }
    } else {
        let (bx, bvx) = bounce_sp(px, cx, p.grid.width as int / 2 - p.particle_radius,
            p.collision_damping as int);
        let (by, bvy) = bounce_sp(py, cy, p.grid.height as int / 2 - p.particle_radius,
            p.collision_damping as int);
        let (bz, bvz) = bounce_sp(pz, cz, p.grid.depth as int / 2 - p.particle_radius,
            p.collision_damping as int);
        ParticleState {
            position: Vec3i { x: bx as i64, y: by as i64, z: bz as i64 },
            velocity: Vec3i { x: bvx as i64, y: bvy as i64, z: bvz as i64 },
            type_index: s.type_index,
            sim_id: s.sim_id,
        }
    }
}

/// Advance one particle by one fixed timestep under the accumulated force.
pub fn integrate_particle(p: &PhysicsParams, s: ParticleState, f: Vec3i) -> (r: ParticleState)
    requires
        p.wf(),
        p.particle_ok_sp(s),
        abs_sp(f.x as int) <= FORCE_BOUND,
        abs_sp(f.y as int) <= FORCE_BOUND,
        abs_sp(f.z as int) <= FORCE_BOUND,
    ensures
        r == step_particle_sp(*p, s, f),
        p.particle_ok_sp(r),
{
    // Acceleration and damping.
    let vx = integrate_axis(p, s.velocity.x, f.x);
    let vy = integrate_axis(p, s.velocity.y, f.y);
    let vz = integrate_axis(p, s.velocity.z, f.z);

    // Speed clamp.
    let vvec = Vec3i { x: vx, y: vy, z: vz };
    proof {
        assert(0 <= vx * vx <= 1_000_000_000_000_000_000) by (nonlinear_arith)
            requires -1_000_000_000 <= vx as int <= 1_000_000_000;
        assert(0 <= vy * vy <= 1_000_000_000_000_000_000) by (nonlinear_arith)
            requires -1_000_000_000 <= vy as int <= 1_000_000_000;
        assert(0 <= vz * vz <= 1_000_000_000_000_000_000) by (nonlinear_arith)
            requires -1_000_000_000 <= vz as int <= 1_000_000_000;
        lemma_axis_le_norm(vvec);
    }
    let speed = isqrt(vx * vx + vy * vy + vz * vz);
    let cx: i64;
    let cy: i64;
    let cz: i64;
    if speed > p.max_velocity {
        proof {
            lemma_scaled_direction_bound(vx as int, p.max_velocity as int, speed as int,
                p.max_velocity as int);
            lemma_scaled_direction_bound(vy as int, p.max_velocity as int, speed as int,
                p.max_velocity as int);
            lemma_scaled_direction_bound(vz as int, p.max_velocity as int, speed as int,
                p.max_velocity as int);
            assert(abs_sp(vx as int) * abs_sp(p.max_velocity as int)
                == abs_sp(p.max_velocity as int) * abs_sp(vx as int)) by (nonlinear_arith);
        }
        cx = scaled_i64(vx, p.max_velocity, speed);
        cy = scaled_i64(vy, p.max_velocity, speed);
        cz = scaled_i64(vz, p.max_velocity, speed);
        proof {
            lemma_swap_scaled(vx as int, p.max_velocity as int, speed as int);
            lemma_swap_scaled(vy as int, p.max_velocity as int, speed as int);
            lemma_swap_scaled(vz as int, p.max_velocity as int, speed as int);
        }
    } else {
        cx = vx;
        cy = vy;
        cz = vz;
    }
    proof {
        assert(abs_sp(cx as int) <= p.max_velocity);
        assert(abs_sp(cy as int) <= p.max_velocity);
        assert(abs_sp(cz as int) <= p.max_velocity);
        lemma_scaled_direction_bound(p.dt as int, cx as int, 1000, p.max_velocity as int);
        lemma_scaled_direction_bound(p.dt as int, cy as int, 1000, p.max_velocity as int);
        lemma_scaled_direction_bound(p.dt as int, cz as int, 1000, p.max_velocity as int);
        lemma_swap_scaled(cx as int, p.dt as int, 1000);
        lemma_swap_scaled(cy as int, p.dt as int, 1000);
        lemma_swap_scaled(cz as int, p.dt as int, 1000);
    }

    // Move.
    let px = s.position.x + scaled_i64(cx, p.dt, 1000);
    let py = s.position.y + scaled_i64(cy, p.dt, 1000);
    let pz = s.position.z + scaled_i64(cz, p.dt, 1000);

    // Boundary handling.
    match p.boundary_mode {
        BoundaryMode::Teleport => {
            let pos = p.grid.wrap_position(Vec3i { x: px, y: py, z: pz });
            ParticleState {
                position: pos,
                velocity: Vec3i { x: cx, y: cy, z: cz },
                type_index: s.type_index,
                sim_id: s.sim_id,
            }
        },
        BoundaryMode::Bounce => {
            let (bx, bvx) = bounce_axis(px, cx, p.grid.width / 2 - p.particle_radius,
                p.collision_damping);
            let (by, bvy) = bounce_axis(py, cy, p.grid.height / 2 - p.particle_radius,
                p.collision_damping);
            let (bz, bvz) = bounce_axis(pz, cz, p.grid.depth / 2 - p.particle_radius,
                p.collision_damping);
            ParticleState {
                position: Vec3i { x: bx, y: by, z: bz },
                velocity: Vec3i { x: bvx, y: bvy, z: bvz },
                type_index: s.type_index,
                sim_id: s.sim_id,
            }
        },
    }
}

/// One axis of the velocity update: `v + f * dt`, then exponential damping.
fn integrate_axis(p: &PhysicsParams, v: i64, f: i64) -> (r: i64)
    requires
        p.wf(),
        abs_sp(v as int) <= p.max_velocity,
        abs_sp(f as int) <= FORCE_BOUND,
    ensures
        r == vel_axis_sp(*p, v as int, f as int),
        abs_sp(r as int) <= 1_000_000_000,
{
    proof {
        lemma_scaled_direction_bound(p.dt as int, f as int, 1000, FORCE_BOUND as int);
        lemma_swap_scaled(f as int, p.dt as int, 1000);
    }
    let v1 = v + scaled_i64(f, p.dt, 1000);
    proof {
        lemma_scaled_direction_bound(p.damping as int, v1 as int, 1000, 301_000_000);
        lemma_swap_scaled(v1 as int, p.damping as int, 1000);
    }
    scaled_i64(v1, p.damping, 1000)
}

/// `scaled_sp` is symmetric in its two factors.
proof fn lemma_swap_scaled(a: int, b: int, d: int)
    requires
        d >= 1,
    ensures
        scaled_sp(a, b, d) == scaled_sp(b, a, d),
{
    assert(abs_sp(a) * abs_sp(b) == abs_sp(b) * abs_sp(a)) by (nonlinear_arith);
}

/// Reflect one axis off the wall: past the margin the position snaps back to
/// it and the velocity reverses with damping.
fn bounce_axis(x: i64, v: i64, lim: i64, damp: i64) -> (r: (i64, i64))
    requires
        1 <= lim <= 1_000_000_000,
        abs_sp(x as int) <= MAX_COORD_AXIS + 1_000_000,
        abs_sp(v as int) <= 1_000_000_000,
        0 <= damp <= 1000,
    ensures
        (r.0 as int, r.1 as int) == bounce_sp(x as int, v as int, lim as int, damp as int),
        abs_sp(r.0 as int) <= lim,
        abs_sp(r.1 as int) <= abs_sp(v as int),
{
    if x > lim {
        proof {
            lemma_scaled_direction_bound(damp as int, v as int, 1000, abs_sp(v as int));
            lemma_swap_scaled(v as int, damp as int, 1000);
        }
        (lim, -scaled_i64(v, damp, 1000))
    } else if x < -lim {
        proof {
            lemma_scaled_direction_bound(damp as int, v as int, 1000, abs_sp(v as int));
            lemma_swap_scaled(v as int, damp as int, 1000);
        }
        (-lim, -scaled_i64(v, damp, 1000))
    } else {
        (x, v)
    }
}

// ---------------------------------------------------------------------------
// The full tick.

/// Apply the accumulated forces and advance every particle by one fixed
/// physical timestep, including boundary handling.
pub fn apply_physics_step(
    p: &PhysicsParams,
    particles: &mut Vec<ParticleState>,
    forces: &Vec<Vec3i>,
)
    requires
        p.wf(),
        old(particles)@.len() == forces@.len(),
        forall|k: int| 0 <= k < old(particles)@.len()
            ==> p.particle_ok_sp(#[trigger] old(particles)@[k]),
        forall|k: int| 0 <= k < forces@.len() ==> {
            let f = #[trigger] forces@[k];
            abs_sp(f.x as int) <= FORCE_BOUND
                && abs_sp(f.y as int) <= FORCE_BOUND
                && abs_sp(f.z as int) <= FORCE_BOUND
        },
    ensures
        final(particles)@.len() == old(particles)@.len(),
        forall|k: int| 0 <= k < old(particles)@.len()
            ==> #[trigger] final(particles)@[k]
                == step_particle_sp(*p, old(particles)@[k], forces@[k]),
        forall|k: int| 0 <= k < final(particles)@.len()
            ==> p.particle_ok_sp(#[trigger] final(particles)@[k]),
{
    let n = particles.len();
    let mut i: usize = 0;
    while i < n
        invariant
            p.wf(),
            n == particles@.len() == old(particles)@.len() == forces@.len(),
            0 <= i <= n,
            forall|k: int| i <= k < n
                ==> #[trigger] particles@[k] == old(particles)@[k],
            forall|k: int| 0 <= k < n ==> p.particle_ok_sp(#[trigger] old(particles)@[k]),
            forall|k: int| 0 <= k < forces@.len() ==> {
                let f = #[trigger] forces@[k];
                abs_sp(f.x as int) <= FORCE_BOUND
                    && abs_sp(f.y as int) <= FORCE_BOUND
                    && abs_sp(f.z as int) <= FORCE_BOUND
            },
            forall|k: int| 0 <= k < i
                ==> #[trigger] particles@[k]
                    == step_particle_sp(*p, old(particles)@[k], forces@[k]),
            forall|k: int| 0 <= k < i ==> p.particle_ok_sp(#[trigger] particles@[k]),
        decreases n - i,
    {
        let s = particles[i];
        let stepped = integrate_particle(p, s, forces[i]);
        particles[i] = stepped;
        i = i + 1;
    }
}

/// The whole world after one tick: every particle stepped under the total
/// force computed from the same read-only snapshot.
pub open spec fn tick_sp(
    p: PhysicsParams,
    gs: Seq<Genotype>,
    ps: Seq<ParticleState>,
    fs: Seq<FoodItem>,
) -> Seq<ParticleState> {
    Seq::new(ps.len(), |i: int| {
        let f = total_force_sp(p, gs, ps, fs, i);
        step_particle_sp(p, ps[i], Vec3i { x: f.0 as i64, y: f.1 as i64, z: f.2 as i64 })
    })
}

/// The world after `n` consecutive ticks.
pub open spec fn ticks_sp(
    p: PhysicsParams,
    gs: Seq<Genotype>,
    ps: Seq<ParticleState>,
    fs: Seq<FoodItem>,
    n: int,
) -> Seq<ParticleState>
    decreases n,
{
    if n <= 0 { ps } else { tick_sp(p, gs, ticks_sp(p, gs, ps, fs, n - 1), fs) }
}

/// One full physical tick: accumulate the forces from the read-only snapshot,
/// then integrate every particle.
pub fn physics_tick(
    p: &PhysicsParams,
    genotypes: &Vec<Genotype>,
    particles: &mut Vec<ParticleState>,
    foods: &Vec<FoodItem>,
)
    requires
        p.wf(),
        forall|k: int| 0 <= k < genotypes@.len() ==> (#[trigger] genotypes@[k]).wf(),
        forall|k: int| 0 <= k < old(particles)@.len()
            ==> p.particle_ok_sp(#[trigger] old(particles)@[k]),
        forall|k: int| 0 <= k < foods@.len()
            ==> p.grid.contains_sp((#[trigger] foods@[k]).position),
        foods@.len() <= MAX_FOODS,
    ensures
        final(particles)@.len() == old(particles)@.len(),
        final(particles)@ == tick_sp(*p, genotypes@, old(particles)@, foods@),
        forall|k: int| 0 <= k < old(particles)@.len() ==> {
            let f = total_force_sp(*p, genotypes@, old(particles)@, foods@, k);
            #[trigger] final(particles)@[k] == step_particle_sp(*p, old(particles)@[k],
                Vec3i { x: f.0 as i64, y: f.1 as i64, z: f.2 as i64 })
        },
        forall|k: int| 0 <= k < final(particles)@.len()
            ==> p.particle_ok_sp(#[trigger] final(particles)@[k]),
{
    let forces = calculate_forces_with_torus(p, genotypes, particles, foods);
    apply_physics_step(p, particles, &forces);
    proof {
        assert forall|k: int| 0 <= k < old(particles)@.len() implies {
            let f = total_force_sp(*p, genotypes@, old(particles)@, foods@, k);
            #[trigger] final(particles)@[k] == step_particle_sp(*p, old(particles)@[k],
                Vec3i { x: f.0 as i64, y: f.1 as i64, z: f.2 as i64 })
        } by {
            let f = total_force_sp(*p, genotypes@, old(particles)@, foods@, k);
            let fv = forces@[k];
            assert((fv.x as int, fv.y as int, fv.z as int) == f);
        }
        assert(final(particles)@ =~= tick_sp(*p, genotypes@, old(particles)@, foods@));
    }
}


impl GridParameters {
    /// Resolve the domain boundary for one integrated position: in bounce
    /// mode any axis past the wall margin reflects and its velocity reverses
    /// damped; in teleport mode the position wraps around the torus.
    pub fn apply_bounds(
        &self,
        position: &mut Vec3i,
        velocity: &mut Vec3i,
        particle_radius: i64,
        collision_damping: i64,
        mode: BoundaryMode,
    )
        requires
            self.wf(),
            1 <= particle_radius,
            2 * particle_radius < self.width,
            2 * particle_radius < self.height,
            2 * particle_radius < self.depth,
            0 <= collision_damping <= 1000,
            abs_sp(old(position).x as int) <= MAX_COORD_AXIS + 1_000_000,
            abs_sp(old(position).y as int) <= MAX_COORD_AXIS + 1_000_000,
            abs_sp(old(position).z as int) <= MAX_COORD_AXIS + 1_000_000,
            abs_sp(old(velocity).x as int) <= 1_000_000_000,
            abs_sp(old(velocity).y as int) <= 1_000_000_000,
            abs_sp(old(velocity).z as int) <= 1_000_000_000,
        ensures
            mode == BoundaryMode::Bounce ==> {
                &&& (final(position).x as int, final(velocity).x as int)
                    == bounce_sp(old(position).x as int, old(velocity).x as int,
                        self.width as int / 2 - particle_radius, collision_damping as int)
                &&& (final(position).y as int, final(velocity).y as int)
                    == bounce_sp(old(position).y as int, old(velocity).y as int,
                        self.height as int / 2 - particle_radius, collision_damping as int)
                &&& (final(position).z as int, final(velocity).z as int)
                    == bounce_sp(old(position).z as int, old(velocity).z as int,
                        self.depth as int / 2 - particle_radius, collision_damping as int)
            },
            mode == BoundaryMode::Teleport ==> {
                &&& final(position).x == wrap_coord_sp(old(position).x as int,
                    self.width as int)
                &&& final(position).y == wrap_coord_sp(old(position).y as int,
                    self.height as int)
                &&& final(position).z == wrap_coord_sp(old(position).z as int,
                    self.depth as int)
                &&& *final(velocity) == *old(velocity)
            },
            self.contains_sp(*final(position)),
    {
        match mode {
            BoundaryMode::Bounce => {
                let (px, vx) = bounce_axis(position.x, velocity.x,
                    self.width / 2 - particle_radius, collision_damping);
                let (py, vy) = bounce_axis(position.y, velocity.y,
                    self.height / 2 - particle_radius, collision_damping);
                let (pz, vz) = bounce_axis(position.z, velocity.z,
                    self.depth / 2 - particle_radius, collision_damping);
                *position = Vec3i { x: px, y: py, z: pz };
                *velocity = Vec3i { x: vx, y: vy, z: vz };
            },
            BoundaryMode::Teleport => {
                *position = self.wrap_position(*position);
            },
        }
    }
}

} // verus!
