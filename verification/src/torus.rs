//! Domain geometry: the bounded box and the toroidal (wrap-around) topology.
//!
//! The simulation domain is an axis-aligned box centred on the origin.  In
//! bounce mode particles reflect off its walls; in teleport mode the domain is
//! a torus and every axis wraps at the extent.  Force computation needs the
//! shortest signed displacement between two points, not only the distance, so
//! both a toroidal direction vector and a toroidal distance are provided.

use vstd::prelude::*;
use crate::fixed::{Vec3i, abs_sp, isqrt_sp, norm_sq_sp, isqrt, abs_i64};
use crate::fixed::{lemma_isqrt_monotone, lemma_square_monotone};

verus! {

/// Extents may not exceed one million simulated units (in milli units).
pub const MAX_EXTENT: i64 = 1_000_000_000;

/// Positions handed to the wrap are bounded far away from `i64` overflow.
pub const MAX_COORD: i64 = 1_000_000_000_000_000;

/// How motion past the edge of the domain is resolved.
#[derive(Clone, Copy, Debug, PartialEq, Eq, Structural)]
pub enum BoundaryMode {
    /// Reflect off the wall and damp the velocity component.
    Bounce,
    /// Re-enter from the opposite side: the domain is a torus.
    Teleport,
}

/// The extents of the simulation domain, in milli units.
#[derive(Clone, Copy, Debug, PartialEq, Eq, Structural)]
pub struct GridParameters {
    pub width: i64,
    pub height: i64,
    pub depth: i64,
}

/// `a` and `b` differ by a whole number of periods `m`.
pub open spec fn congruent_sp(a: int, b: int, m: int) -> bool {
    exists|k: int| a - b == #[trigger] (k * m)
}

/// Shortest signed displacement `d` along one toroidal axis of period `size`.
pub open spec fn axis_delta_sp(d: int, size: int) -> int {
    if 2 * abs_sp(d) <= size {
        d
    } else if d > 0 {
        d - size
    } else {
        d + size
    }
}

/// Squared toroidal distance between `p` and `q` under extents `g`.
pub open spec fn torus_dist_sq_sp(g: GridParameters, p: Vec3i, q: Vec3i) -> int {
    let dx = axis_delta_sp(q.x - p.x, g.width as int);
    let dy = axis_delta_sp(q.y - p.y, g.height as int);
    let dz = axis_delta_sp(q.z - p.z, g.depth as int);
    dx * dx + dy * dy + dz * dz
}

/// Squared Euclidean distance between `p` and `q`.
pub open spec fn euclid_dist_sq_sp(p: Vec3i, q: Vec3i) -> int {
    let dx = q.x - p.x;
    let dy = q.y - p.y;
    let dz = q.z - p.z;
    dx * dx + dy * dy + dz * dz
}

/// Wrap one coordinate into `[-size/2, size/2)` keeping it congruent mod `size`.
pub open spec fn wrap_coord_sp(x: int, size: int) -> int {
    let h = size / 2;
    let m = (x + h) % size;
    m - h
}

impl GridParameters {
    /// A usable domain: every extent is even, positive and bounded.  The
    /// evenness is a modeling choice, not a physical restriction: extents are
    /// in milli units, so any domain is representable, and an even extent
    /// makes the wrap range `[-extent/2, extent/2)` split exactly in half.
    pub open spec fn wf(self) -> bool {
        &&& 2 <= self.width <= MAX_EXTENT
        &&& 2 <= self.height <= MAX_EXTENT
        &&& 2 <= self.depth <= MAX_EXTENT
        &&& self.width % 2 == 0
        &&& self.height % 2 == 0
        &&& self.depth % 2 == 0
    }

    /// `p` lies inside the (closed) domain box.
    pub open spec fn contains_sp(self, p: Vec3i) -> bool {
        &&& 2 * abs_sp(p.x as int) <= self.width
        &&& 2 * abs_sp(p.y as int) <= self.height
        &&& 2 * abs_sp(p.z as int) <= self.depth
    }

    /// Whether a position is within the domain box.
    pub fn is_in_bounds(&self, position: Vec3i) -> (r: bool)
        requires
            self.wf(),
            position.x > i64::MIN,
            position.y > i64::MIN,
            position.z > i64::MIN,
        ensures
            r == self.contains_sp(position),
    {
        let hw = self.width / 2;
        let hh = self.height / 2;
        let hd = self.depth / 2;
        abs_i64(position.x) <= hw && abs_i64(position.y) <= hh && abs_i64(position.z) <= hd
    }

    /// Shortest toroidal displacement from `from` to `to`, per axis.
    pub fn torus_direction_vector(&self, from: Vec3i, to: Vec3i) -> (r: Vec3i)
        requires
            self.wf(),
            self.contains_sp(from),
            self.contains_sp(to),
        ensures
            r.x == axis_delta_sp(to.x - from.x, self.width as int),
            r.y == axis_delta_sp(to.y - from.y, self.height as int),
            r.z == axis_delta_sp(to.z - from.z, self.depth as int),
            2 * abs_sp(r.x as int) <= self.width,
            2 * abs_sp(r.y as int) <= self.height,
            2 * abs_sp(r.z as int) <= self.depth,
    {
        Vec3i {
            x: axis_delta(to.x - from.x, self.width),
            y: axis_delta(to.y - from.y, self.height),
            z: axis_delta(to.z - from.z, self.depth),
        }
    }

    /// Toroidal distance between two points of the domain.
    pub fn torus_distance(&self, p: Vec3i, q: Vec3i) -> (r: i64)
        requires
            self.wf(),
            self.contains_sp(p),
            self.contains_sp(q),
        ensures
            r == isqrt_sp(torus_dist_sq_sp(*self, p, q)),
            r >= 0,
    {
        let d = self.torus_direction_vector(p, q);
        proof {
            lemma_square_monotone(abs_sp(d.x as int), MAX_EXTENT as int);
            lemma_square_monotone(abs_sp(d.y as int), MAX_EXTENT as int);
            lemma_square_monotone(abs_sp(d.z as int), MAX_EXTENT as int);
            assert(d.x * d.x == abs_sp(d.x as int) * abs_sp(d.x as int)) by (nonlinear_arith);
            assert(d.y * d.y == abs_sp(d.y as int) * abs_sp(d.y as int)) by (nonlinear_arith);
            assert(d.z * d.z == abs_sp(d.z as int) * abs_sp(d.z as int)) by (nonlinear_arith);
        }
        isqrt(d.x * d.x + d.y * d.y + d.z * d.z)
    }

    /// Wrap a position into the domain, axis by axis (teleport mode).
    pub fn wrap_position(&self, p: Vec3i) -> (r: Vec3i)
        requires
            self.wf(),
            abs_sp(p.x as int) <= MAX_COORD,
            abs_sp(p.y as int) <= MAX_COORD,
            abs_sp(p.z as int) <= MAX_COORD,
        ensures
            r.x == wrap_coord_sp(p.x as int, self.width as int),
            r.y == wrap_coord_sp(p.y as int, self.height as int),
            r.z == wrap_coord_sp(p.z as int, self.depth as int),
            -self.width / 2 <= r.x < self.width / 2,
            -self.height / 2 <= r.y < self.height / 2,
            -self.depth / 2 <= r.z < self.depth / 2,
            congruent_sp(r.x as int, p.x as int, self.width as int),
            congruent_sp(r.y as int, p.y as int, self.height as int),
            congruent_sp(r.z as int, p.z as int, self.depth as int),
            self.contains_sp(r),
    {
        Vec3i {
            x: wrap_coord(p.x, self.width),
            y: wrap_coord(p.y, self.height),
            z: wrap_coord(p.z, self.depth),
        }
    }
}

/// Shortest signed displacement along one toroidal axis.
///
/// For inputs no longer than one period this is the raw difference when it is
/// at most half the period in magnitude, and the difference shifted by one
/// period otherwise; the result never exceeds half the period in magnitude
/// and never exceeds the raw difference.
pub fn axis_delta(d: i64, size: i64) -> (r: i64)
    requires
        2 <= size <= MAX_EXTENT,
        abs_sp(d as int) <= size,
    ensures
        r == axis_delta_sp(d as int, size as int),
        2 * abs_sp(r as int) <= size,
        abs_sp(r as int) <= abs_sp(d as int),
        congruent_sp(r as int, d as int, size as int),
{
    let r: i64 = if 2 * abs_i64(d) <= size {
        d
    } else if d > 0 {
        d - size
    } else {
        d + size
    };
    proof {
        if r == d {
            assert(r - d == 0 * (size as int));
        } else if r as int == d - size {
            assert(r - d == (-1) * (size as int));
        } else {
            assert(r - d == 1 * (size as int));
        }
    }
    r
}

/// Wrap one coordinate into `[-size/2, size/2)`, preserving it modulo `size`.
pub fn wrap_coord(x: i64, size: i64) -> (r: i64)
    requires
        2 <= size <= MAX_EXTENT,
        size % 2 == 0,
        abs_sp(x as int) <= MAX_COORD,
    ensures
        r == wrap_coord_sp(x as int, size as int),
        -size / 2 <= r < size / 2,
        congruent_sp(r as int, x as int, size as int),
{
    let half: i64 = size / 2;
    let mut r: i64 = x;
    let ghost mut k: int = 0;
    while r < -half
        invariant
            2 <= size <= MAX_EXTENT,
            size % 2 == 0,
            half == size / 2,
            r as int == x + k * size,
            r <= MAX_COORD,
        decreases -half - r + size,
    {
        proof {
            assert((k + 1) * size == k * size + size) by (nonlinear_arith);
        }
        r = r + size;
        proof {
            k = k + 1;
        }
    }
    while r >= half
        invariant
            2 <= size <= MAX_EXTENT,
            size % 2 == 0,
            half == size / 2,
            r as int == x + k * size,
            r >= -half,
        decreases r - half + size,
    {
        proof {
            assert((k - 1) * size == k * size - size) by (nonlinear_arith);
        }
        r = r - size;
        proof {
            k = k - 1;
        }
    }
    proof {
        assert(r - x == k * (size as int)) by (nonlinear_arith)
            requires r as int == x + k * (size as int);
        lemma_wrap_unique(x as int, size as int, r as int);
    }
    r
}

/// Any representative in `[-size/2, size/2)` congruent to `x` is `wrap_coord_sp(x, size)`.
proof fn lemma_wrap_unique(x: int, size: int, r: int)
    requires
        size >= 2,
        size % 2 == 0,
        congruent_sp(r, x, size),
        -size / 2 <= r < size / 2,
    ensures
        r == wrap_coord_sp(x, size),
{
    let h = size / 2;
    let k = choose|k: int| r - x == #[trigger] (k * size);
    assert((x + h) % size == (r + h) % size) by {
        assert(x + h == (r + h) + (-k) * size) by (nonlinear_arith)
            requires r - x == k * size;
        vstd::arithmetic::div_mod::lemma_mod_multiples_vanish(-k, r + h, size);
    }
    assert((r + h) % size == r + h) by {
        vstd::arithmetic::div_mod::lemma_small_mod((r + h) as nat, size as nat);
    }
}

/// Toroidal distance is symmetric in its two points.
pub proof fn lemma_torus_distance_symmetric(g: GridParameters, p: Vec3i, q: Vec3i)
    requires
        g.wf(),
    ensures
        torus_dist_sq_sp(g, p, q) == torus_dist_sq_sp(g, q, p),
        isqrt_sp(torus_dist_sq_sp(g, p, q)) == isqrt_sp(torus_dist_sq_sp(g, q, p)),
{
    lemma_axis_delta_antisymmetric(q.x - p.x, g.width as int);
    lemma_axis_delta_antisymmetric(q.y - p.y, g.height as int);
    lemma_axis_delta_antisymmetric(q.z - p.z, g.depth as int);
    let dx = axis_delta_sp(q.x - p.x, g.width as int);
    let dy = axis_delta_sp(q.y - p.y, g.height as int);
    let dz = axis_delta_sp(q.z - p.z, g.depth as int);
    assert((-dx) * (-dx) == dx * dx) by (nonlinear_arith);
    assert((-dy) * (-dy) == dy * dy) by (nonlinear_arith);
    assert((-dz) * (-dz) == dz * dz) by (nonlinear_arith);
}

/// Reversing the direction reverses the shortest displacement.
proof fn lemma_axis_delta_antisymmetric(d: int, size: int)
    requires
        size >= 2,
    ensures
        axis_delta_sp(-d, size) == -axis_delta_sp(d, size),
{
}

/// The toroidal distance never exceeds the Euclidean distance.
pub proof fn lemma_torus_distance_le_euclidean(g: GridParameters, p: Vec3i, q: Vec3i)
    requires
        g.wf(),
    ensures
        torus_dist_sq_sp(g, p, q) <= euclid_dist_sq_sp(p, q),
        isqrt_sp(torus_dist_sq_sp(g, p, q)) <= isqrt_sp(euclid_dist_sq_sp(p, q)),
{
    lemma_axis_delta_shrinks(q.x - p.x, g.width as int);
    lemma_axis_delta_shrinks(q.y - p.y, g.height as int);
    lemma_axis_delta_shrinks(q.z - p.z, g.depth as int);
    assert(euclid_dist_sq_sp(p, q) >= 0) by (nonlinear_arith);
    lemma_isqrt_monotone(torus_dist_sq_sp(g, p, q), euclid_dist_sq_sp(p, q));
}

/// Per axis, the shortest toroidal displacement is no longer than the raw one.
proof fn lemma_axis_delta_shrinks(d: int, size: int)
    requires
        size >= 2,
    ensures
        axis_delta_sp(d, size) * axis_delta_sp(d, size) <= d * d,
        axis_delta_sp(d, size) * axis_delta_sp(d, size) >= 0,
{
    let r = axis_delta_sp(d, size);
    assert(abs_sp(r) <= abs_sp(d)) by {
        if 2 * abs_sp(d) <= size {
        } else if d > 0 {
            assert(abs_sp(d - size) <= abs_sp(d));
        } else {
            assert(abs_sp(d + size) <= abs_sp(d));
        }
    }
    assert(r * r == abs_sp(r) * abs_sp(r)) by (nonlinear_arith);
    assert(d * d == abs_sp(d) * abs_sp(d)) by (nonlinear_arith);
    lemma_square_monotone(abs_sp(r), abs_sp(d));
}

} // verus!
