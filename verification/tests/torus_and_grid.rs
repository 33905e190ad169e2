use particle_life::fixed::{Vec3i, isqrt};
use particle_life::torus::{BoundaryMode, GridParameters};
use particle_life::physics::ParticleState;
use particle_life::spatial::{SpatialGrid, get_cell_key};

fn grid() -> GridParameters {
    GridParameters { width: 800_000, height: 800_000, depth: 800_000 }
}

fn euclid_distance(p: Vec3i, q: Vec3i) -> i64 {
    let dx = q.x - p.x;
    let dy = q.y - p.y;
    let dz = q.z - p.z;
    isqrt(dx * dx + dy * dy + dz * dz)
}

#[test]
fn torus_distance_is_symmetric() {
    // torus_distance(p, q) == torus_distance(q, p) for any two points.
    let g = grid();
    let p = Vec3i { x: -390_000, y: 120_000, z: 5 };
    let q = Vec3i { x: 395_000, y: -380_000, z: -400_000 };
    assert_eq!(g.torus_distance(p, q), g.torus_distance(q, p));
}

#[test]
fn torus_distance_at_most_euclidean() {
    // The toroidal distance never exceeds the Euclidean one.
    let g = grid();
    let cases = [
        (Vec3i { x: -390_000, y: 0, z: 0 }, Vec3i { x: 390_000, y: 0, z: 0 }),
        (Vec3i { x: 1, y: 2, z: 3 }, Vec3i { x: 4, y: 5, z: 6 }),
        (Vec3i { x: -400_000, y: -400_000, z: -400_000 },
            Vec3i { x: 399_999, y: 399_999, z: 399_999 }),
    ];
    for (p, q) in cases {
        assert!(g.torus_distance(p, q) <= euclid_distance(p, q));
    }
}

#[test]
fn torus_wraps_across_the_edge() {
    // Two points near opposite walls are close on the torus.
    let g = grid();
    let p = Vec3i { x: -399_000, y: 0, z: 0 };
    let q = Vec3i { x: 399_000, y: 0, z: 0 };
    assert_eq!(g.torus_distance(p, q), 2000);
    let d = g.torus_direction_vector(p, q);
    assert_eq!((d.x, d.y, d.z), (-2000, 0, 0));
}

#[test]
fn wrap_puts_positions_back_in_range() {
    // One wrap application lands in [-extent/2, extent/2) on every axis.
    let g = grid();
    let p = Vec3i { x: 400_001, y: -400_001, z: 1_600_000 };
    let w = g.wrap_position(p);
    for (v, extent) in [(w.x, g.width), (w.y, g.height), (w.z, g.depth)] {
        assert!(v >= -extent / 2 && v < extent / 2);
    }
    assert_eq!(w.x, -399_999);
    assert_eq!(w.y, 399_999);
    assert_eq!(w.z, 0);
    // A position already inside is unchanged.
    let inside = Vec3i { x: 12, y: -399_999, z: 0 };
    let w2 = g.wrap_position(inside);
    assert_eq!((w2.x, w2.y, w2.z), (12, -399_999, 0));
}

#[test]
fn is_in_bounds_matches_the_box() {
    let g = grid();
    assert!(g.is_in_bounds(Vec3i { x: 400_000, y: 0, z: -400_000 }));
    assert!(!g.is_in_bounds(Vec3i { x: 400_001, y: 0, z: 0 }));
}

#[test]
fn isqrt_exact_values() {
    assert_eq!(isqrt(0), 0);
    assert_eq!(isqrt(1), 1);
    assert_eq!(isqrt(3), 1);
    assert_eq!(isqrt(4), 2);
    assert_eq!(isqrt(999_999), 999);
    assert_eq!(isqrt(1_000_000), 1000);
    assert_eq!(isqrt(i64::MAX), 3_037_000_499);
}

fn particle(x: i64, y: i64, z: i64, sim: usize) -> ParticleState {
    ParticleState {
        position: Vec3i { x, y, z },
        velocity: Vec3i { x: 0, y: 0, z: 0 },
        type_index: 0,
        sim_id: sim,
    }
}

#[test]
fn spatial_grid_returns_block_members_only() {
    let particles = vec![
        particle(0, 0, 0, 0),          // the queried cell itself
        particle(140_000, 0, 0, 0),    // one cell over (cell size 150000)
        particle(600_000, 0, 0, 0),    // far away
        particle(1000, 0, 0, 1),       // other population, same spot
    ];
    let grid = SpatialGrid::rebuild(&particles, 150_000);
    let r = grid.get_potential_neighbors(&particles, Vec3i { x: 0, y: 0, z: 0 }, 0);
    assert!(r.contains(&0));
    assert!(r.contains(&1));
    assert!(!r.contains(&2));
    assert!(!r.contains(&3));
}

#[test]
fn spatial_grid_respects_population_boundaries() {
    let particles = vec![
        particle(0, 0, 0, 0),
        particle(10, 10, 10, 1),
        particle(-10, -10, -10, 1),
    ];
    let grid = SpatialGrid::rebuild(&particles, 100_000);
    let r = grid.get_potential_neighbors(&particles, Vec3i { x: 0, y: 0, z: 0 }, 1);
    assert!(!r.contains(&0));
    assert!(r.contains(&1));
    assert!(r.contains(&2));
}

#[test]
fn cell_keys_shift_with_position() {
    let a = get_cell_key(Vec3i { x: 0, y: 0, z: 0 }, 150_000);
    let b = get_cell_key(Vec3i { x: 150_000, y: 0, z: 0 }, 150_000);
    let c = get_cell_key(Vec3i { x: 300_000, y: 0, z: 0 }, 150_000);
    assert_eq!(b.0 - a.0, 1);
    assert_eq!(c.0 - a.0, 2);
    assert_eq!((a.1, a.2), (b.1, b.2));
}

#[test]
fn apply_bounds_bounces_and_damps() {
    let g = grid();
    let mut pos = Vec3i { x: 399_000, y: 0, z: 0 }; // past the 396_000 margin
    let mut vel = Vec3i { x: 10_000, y: 500, z: 0 };
    g.apply_bounds(&mut pos, &mut vel, 4000, 500, BoundaryMode::Bounce);
    assert_eq!(pos.x, 396_000);
    assert_eq!(vel.x, -5000);
    assert_eq!(vel.y, 500);
}

#[test]
fn apply_bounds_wraps_in_teleport_mode() {
    let g = grid();
    let mut pos = Vec3i { x: 400_001, y: 0, z: 0 };
    let mut vel = Vec3i { x: 10_000, y: 0, z: 0 };
    g.apply_bounds(&mut pos, &mut vel, 4000, 500, BoundaryMode::Teleport);
    assert_eq!(pos.x, -399_999);
    assert_eq!(vel.x, 10_000);
}
