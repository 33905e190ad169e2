use particle_life::fixed::Vec3i;
use particle_life::genome::Genotype;
use particle_life::torus::{BoundaryMode, GridParameters};
use particle_life::physics::{
    FoodItem, ParticleState, PhysicsParams, calculate_acceleration, calculate_forces_with_torus,
    get_torus_neighbors, physics_tick,
};
use particle_life::sim::{
    ConfigError, SimulationConfig, SimulationParameters, SimulationSpeed, detect_food_collision,
    physics_simulation_system, reset_for_new_epoch,
};
use particle_life::evolution::{GeneticConfig, calculate_epoch_stats, collect_and_evaluate_genomes,
    rank_genomes, generate_improved_population};
use particle_life::rng::seed_rng;

fn params(mode: BoundaryMode) -> PhysicsParams {
    PhysicsParams {
        grid: GridParameters { width: 800_000, height: 800_000, depth: 800_000 },
        boundary_mode: mode,
        max_force_range: 300_000,
        min_r: 12_000,
        dt: 8,
        damping: 989,
        collision_damping: 500,
        max_velocity: 200_000,
        particle_radius: 4000,
        food_radius: 2000,
    }
}

fn particle(x: i64, y: i64, z: i64, ty: usize, sim: usize) -> ParticleState {
    ParticleState {
        position: Vec3i { x, y, z },
        velocity: Vec3i { x: 0, y: 0, z: 0 },
        type_index: ty,
        sim_id: sim,
    }
}

fn rps_genome() -> Genotype {
    let mut g = Genotype::new(3);
    let mut rng = seed_rng(0);
    g.set_interesting_forces(&mut rng);
    g
}

#[test]
fn interesting_forces_encode_rock_paper_scissors() {
    // The three-type genome is the documented cycle, attraction forward,
    // repulsion backward, and the oscillation check flags a positive 3-cycle.
    let g = rps_genome();
    assert_eq!(
        g.force_matrix,
        vec![-300, 1000, -500, -500, -300, 1000, 1000, -500, -300]
    );
    assert_eq!(g.food_forces, vec![800, -300, 500]);
    assert!(g.get_force(0, 1) > 0);
    assert!(g.get_force(1, 0) < 0);
    // At least one positive cycle flagged: the score drops below 1.
    assert!(g.check_oscillation_risk() < 1000);
}

#[test]
fn repulsion_inside_minimum_separation() {
    // Two nearby particles of any types repel: the acceleration points away.
    let p = params(BoundaryMode::Bounce);
    let rel = Vec3i { x: 6000, y: 0, z: 0 }; // inside min_r = 12000
    let a = calculate_acceleration(&p, rel, 2000);
    assert!(a.x < 0);
    assert_eq!((a.y, a.z), (0, 0));
}

#[test]
fn attraction_beyond_minimum_separation() {
    let p = params(BoundaryMode::Bounce);
    let rel = Vec3i { x: 150_000, y: 0, z: 0 };
    let attract = calculate_acceleration(&p, rel, 2000);
    assert!(attract.x > 0);
    let repel = calculate_acceleration(&p, rel, -2000);
    assert!(repel.x < 0);
    let neutral = calculate_acceleration(&p, rel, 0);
    assert_eq!(neutral.x, 0);
}

#[test]
fn out_of_range_pairs_contribute_nothing() {
    let p = params(BoundaryMode::Bounce);
    let far = calculate_acceleration(&p, Vec3i { x: 300_001, y: 0, z: 0 }, 2000);
    assert_eq!((far.x, far.y, far.z), (0, 0, 0));
    let zero = calculate_acceleration(&p, Vec3i { x: 0, y: 0, z: 0 }, 2000);
    assert_eq!((zero.x, zero.y, zero.z), (0, 0, 0));
}

#[test]
fn neighbors_stay_within_one_population() {
    let p = params(BoundaryMode::Bounce);
    let particles = vec![
        particle(0, 0, 0, 0, 0),
        particle(1000, 0, 0, 1, 0),
        particle(2000, 0, 0, 0, 1),
        particle(500_000, 0, 0, 0, 0),
    ];
    let n = get_torus_neighbors(&p, &particles, 0);
    assert_eq!(n, vec![1]);
}

#[test]
fn toroidal_neighbors_see_across_the_edge() {
    let p = params(BoundaryMode::Teleport);
    let particles = vec![
        particle(-399_000, 0, 0, 0, 0),
        particle(399_000, 0, 0, 0, 0),
    ];
    let n = get_torus_neighbors(&p, &particles, 0);
    assert_eq!(n, vec![1]);
    // In bounce mode the same pair is out of range.
    let pb = params(BoundaryMode::Bounce);
    let nb = get_torus_neighbors(&pb, &particles, 0);
    assert!(nb.is_empty());
}

#[test]
fn forces_move_particles_toward_attraction() {
    let p = params(BoundaryMode::Bounce);
    let mut g = Genotype::new(2);
    g.set_force(0, 1, 2000);
    g.set_force(1, 0, 2000);
    let genomes = vec![g];
    let particles = vec![
        particle(-50_000, 0, 0, 0, 0),
        particle(50_000, 0, 0, 1, 0),
    ];
    let forces = calculate_forces_with_torus(&p, &genomes, &particles, &Vec::new());
    assert_eq!(forces.len(), 2);
    assert!(forces[0].x > 0, "left particle pulled right");
    assert!(forces[1].x < 0, "right particle pulled left");

    let mut moving = particles.clone();
    physics_tick(&p, &genomes, &mut moving, &Vec::new());
    assert!(moving[0].velocity.x > 0);
    assert!(moving[1].velocity.x < 0);
    assert!(moving[0].position.x > -50_000);
    assert!(moving[1].position.x < 50_000);
}

#[test]
fn paused_speed_runs_no_tick() {
    let p = params(BoundaryMode::Bounce);
    let genomes = vec![rps_genome()];
    let mut particles = vec![particle(-50_000, 0, 0, 0, 0), particle(50_000, 0, 0, 1, 0)];
    let before = particles.clone();
    physics_simulation_system(&p, SimulationSpeed::Paused, &genomes, &mut particles, &Vec::new());
    assert_eq!(particles, before);
}

#[test]
fn cpu_executor_is_deterministic() {
    // The same initial state run twice produces identical trajectories
    // and identical score trajectories over a whole epoch.
    let p = params(BoundaryMode::Teleport);
    let genomes = vec![rps_genome(), rps_genome()];
    let start: Vec<ParticleState> = (0..12)
        .map(|i| {
            let sim = i / 6;
            let slot = i % 6;
            particle(
                -250_000 + 90_000 * (slot as i64 % 3),
                -100_000 + 100_000 * (slot as i64 / 3),
                1000 * slot as i64,
                slot % 3,
                sim,
            )
        })
        .collect();
    let foods = vec![FoodItem {
        position: Vec3i { x: -160_000, y: 0, z: 0 },
        value: 1000,
        visible: true,
        respawn_enabled: false,
        respawn_remaining: 0,
    }];

    let mut run = |seed: ()| {
        let _ = seed;
        let mut particles = start.clone();
        let mut foods_run = foods.clone();
        let mut scores = vec![0i64; 2];
        let mut score_trajectory = Vec::new();
        for _ in 0..50 {
            physics_simulation_system(&p, SimulationSpeed::Normal, &genomes, &mut particles,
                &foods_run);
            detect_food_collision(&p, &mut foods_run, &particles, &mut scores, 16_000,
                5_000_000);
            score_trajectory.push(scores.clone());
        }
        (particles, score_trajectory)
    };
    let (p1, s1) = run(());
    let (p2, s2) = run(());
    assert_eq!(p1, p2);
    assert_eq!(s1, s2);
}

#[test]
fn zero_particle_population_scores_zero() {
    // A population with no particles ends the epoch at score 0 and
    // still gets a combined fitness from the evolution engine.
    let p = params(BoundaryMode::Bounce);
    let genomes = vec![rps_genome(), rps_genome()];
    // Only population 0 has particles.
    let mut particles = vec![particle(-20_000, 0, 0, 0, 0), particle(20_000, 0, 0, 1, 0)];
    let mut foods = vec![FoodItem {
        position: Vec3i { x: -20_000, y: 0, z: 0 },
        value: 1000,
        visible: true,
        respawn_enabled: false,
        respawn_remaining: 0,
    }];
    let mut scores = vec![0i64; 2];
    for _ in 0..20 {
        physics_simulation_system(&p, SimulationSpeed::Normal, &genomes, &mut particles, &foods);
        detect_food_collision(&p, &mut foods, &particles, &mut scores, 16_000, 5_000_000);
    }
    assert_eq!(scores[1], 0);

    let sc = collect_and_evaluate_genomes(&genomes, &scores, 1);
    let stats = calculate_epoch_stats(&sc, None);
    let cfg = GeneticConfig::optimized();
    let (ranked, _) = rank_genomes(&sc, &stats, &cfg);
    let mut rng = seed_rng(1);
    let next = generate_improved_population(&ranked, 2, &cfg, &stats, &mut rng);
    assert_eq!(next.len(), 2);
}

#[test]
fn food_collision_scores_and_hides_the_food() {
    let p = params(BoundaryMode::Bounce);
    let particles = vec![particle(0, 0, 0, 0, 0)];
    let mut foods = vec![
        FoodItem {
            position: Vec3i { x: 1000, y: 0, z: 0 }, // within 6000 of the particle
            value: 777,
            visible: true,
            respawn_enabled: true,
            respawn_remaining: 0,
        },
        FoodItem {
            position: Vec3i { x: 300_000, y: 0, z: 0 },
            value: 500,
            visible: true,
            respawn_enabled: true,
            respawn_remaining: 0,
        },
    ];
    let mut scores = vec![0i64];
    detect_food_collision(&p, &mut foods, &particles, &mut scores, 16_000, 5_000_000);
    assert_eq!(scores[0], 777);
    assert!(!foods[0].visible);
    assert_eq!(foods[0].respawn_remaining, 5_000_000);
    assert!(foods[1].visible);

    // The hidden food counts down and comes back, and is eaten again.
    detect_food_collision(&p, &mut foods, &particles, &mut scores, 3_000_000, 5_000_000);
    assert!(!foods[0].visible);
    detect_food_collision(&p, &mut foods, &particles, &mut scores, 3_000_000, 5_000_000);
    assert_eq!(scores[0], 2 * 777);
}

#[test]
fn bounce_mode_keeps_particles_inside() {
    let p = params(BoundaryMode::Bounce);
    let mut g = Genotype::new(1);
    g.set_force(0, 0, 0);
    let genomes = vec![g];
    let mut particles = vec![ParticleState {
        position: Vec3i { x: 395_999, y: 0, z: 0 },
        velocity: Vec3i { x: 200_000, y: 0, z: 0 },
        type_index: 0,
        sim_id: 0,
    }];
    for _ in 0..10 {
        physics_tick(&p, &genomes, &mut particles, &Vec::new());
        let pos = particles[0].position;
        assert!(pos.x.abs() <= 396_000); // half extent minus the radius
    }
}

#[test]
fn epoch_timer_scales_with_speed() {
    let mut sp = SimulationParameters {
        current_epoch: 0,
        max_epochs: 100,
        epoch_duration_micros: 60_000_000,
        elapsed_micros: 0,
        simulation_count: 6,
        particle_count: 100,
        particle_types: 3,
        simulation_speed: SimulationSpeed::Fast,
        max_force_range: 300_000,
    };
    assert_eq!(SimulationSpeed::Paused.multiplier(), 0);
    assert_eq!(SimulationSpeed::Normal.multiplier(), 1);
    assert_eq!(SimulationSpeed::Fast.multiplier(), 2);
    assert_eq!(SimulationSpeed::VeryFast.multiplier(), 4);
    sp.tick(1_000_000);
    assert_eq!(sp.elapsed_micros, 2_000_000);
    assert!(!sp.is_epoch_finished());
    sp.simulation_speed = SimulationSpeed::Paused;
    sp.tick(1_000_000);
    assert_eq!(sp.elapsed_micros, 2_000_000);
    sp.simulation_speed = SimulationSpeed::VeryFast;
    sp.tick(1_000_000_000);
    assert!(sp.is_epoch_finished());
    assert_eq!(sp.elapsed_micros, 60_000_000);
    sp.start_new_epoch();
    assert_eq!(sp.current_epoch, 1);
    assert_eq!(sp.elapsed_micros, 0);
}

#[test]
fn epoch_reset_rebuilds_the_world() {
    let grid = GridParameters { width: 800_000, height: 800_000, depth: 800_000 };
    let mut rng = seed_rng(13);
    let mut particles = vec![
        particle(1, 2, 3, 0, 0),
        particle(4, 5, 6, 1, 0),
        particle(7, 8, 9, 0, 1),
        particle(10, 11, 12, 1, 1),
    ];
    let mut foods = vec![FoodItem {
        position: Vec3i { x: 0, y: 0, z: 0 },
        value: 1000,
        visible: false,
        respawn_enabled: true,
        respawn_remaining: 123,
    }];
    let mut scores = vec![555i64, 777];
    let template = reset_for_new_epoch(&grid, 2, &mut particles, &mut foods, &mut scores,
        &mut rng);
    assert_eq!(template.len(), 2);
    assert_eq!(scores, vec![0, 0]);
    // Both populations are evaluated on the same particle layout.
    assert_eq!(particles[0].position, template[0]);
    assert_eq!(particles[1].position, template[1]);
    assert_eq!(particles[2].position, template[0]);
    assert_eq!(particles[3].position, template[1]);
    for s in &particles {
        assert_eq!(s.velocity, Vec3i { x: 0, y: 0, z: 0 });
    }
    assert!(foods[0].visible);
    assert_eq!(foods[0].respawn_remaining, 0);
}

#[test]
fn config_build_validates_and_derives_min_r() {
    let config = SimulationConfig {
        type_count: 3,
        particle_count: 90,
        simulation_count: 6,
        max_force_range: 300_000,
        grid_width: 800_000,
        grid_height: 800_000,
        grid_depth: 800_000,
        boundary_mode: BoundaryMode::Bounce,
        elite_ratio: 300,
        mutation_rate: 150,
        crossover_rate: 250,
        epoch_duration_micros: 60_000_000,
        particle_radius: 4000,
        food_radius: 2000,
        max_velocity: 200_000,
        dt: 8,
        damping: 989,
        collision_damping: 500,
    };
    let (phys, gen, run) = config.build().unwrap();
    // The minimum-separation radius is derived from the type count.
    assert_eq!(phys.min_r, 12_000);
    assert_eq!(gen.elite_ratio, 300);
    assert_eq!(run.particle_types, 3);
    assert_eq!(run.current_epoch, 0);

    let mut bad = config;
    bad.type_count = 0;
    assert!(matches!(bad.build(), Err(ConfigError::BadCounts)));
    let mut bad = config;
    bad.grid_width = 801; // odd extents are rejected
    assert!(matches!(bad.build(), Err(ConfigError::BadGeometry)));
    let mut bad = config;
    bad.mutation_rate = 1001;
    assert!(matches!(bad.build(), Err(ConfigError::BadRates)));
    let mut bad = config;
    bad.dt = 0;
    assert!(matches!(bad.build(), Err(ConfigError::BadTiming)));
}
