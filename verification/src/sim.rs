//! Run-level simulation state: the configuration surface, the epoch timer
//! with its speed multiplier, scoring by food collisions, and the reset that
//! opens each epoch.
//!
//! The epoch clock advances in microseconds scaled by the active speed; the
//! speed multiplier also decides how many full physical ticks run per
//! displayed frame, so trajectories do not depend on the rendering frame
//! rate.  Scores only ever grow within an epoch and are zeroed at its start.

use vstd::prelude::*;
use crate::fixed::Vec3i;
use crate::genome::{MAX_TYPES, MAX_SCORE, Genotype};

use crate::coherence::MAX_POPULATION;
use crate::torus::{GridParameters, BoundaryMode};
use crate::physics::{PhysicsParams, ParticleState, FoodItem, MAX_FOODS, physics_tick};
use crate::rng::draw_in_range;

verus! {

/// Why a run configuration was rejected.
#[derive(Clone, Copy, Debug, PartialEq, Eq, Structural)]
pub enum ConfigError {
    /// A count (types, particles, populations) is zero or above its cap.
    BadCounts,
    /// The domain box or a radius is out of range, or the minimum-separation
    /// radius derived from the type count reaches the force range.
    BadGeometry,
    /// A genetic rate lies outside the probability scale.
    BadRates,
    /// The timestep, damping, speed limit or epoch duration is out of range.
    BadTiming,
}

/// The named parameters a run is started with; constant for the run.
#[derive(Clone, Copy, Debug, PartialEq, Eq, Structural)]
pub struct SimulationConfig {
    pub type_count: usize,
    pub particle_count: usize,
    pub simulation_count: usize,
    pub max_force_range: i64,
    pub grid_width: i64,
    pub grid_height: i64,
    pub grid_depth: i64,
    pub boundary_mode: BoundaryMode,
    pub elite_ratio: i64,
    pub mutation_rate: i64,
    pub crossover_rate: i64,
    pub epoch_duration_micros: u64,
    pub particle_radius: i64,
    pub food_radius: i64,
    pub max_velocity: i64,
    pub dt: i64,
    pub damping: i64,
    pub collision_damping: i64,
}

impl SimulationConfig {
    /// The counts are positive and capped.
    pub open spec fn counts_ok_sp(self) -> bool {
        &&& 1 <= self.type_count <= MAX_TYPES
        &&& 1 <= self.particle_count
        &&& 1 <= self.simulation_count <= MAX_POPULATION
    }

    /// The geometry fits the physics ranges, including the derived
    /// minimum-separation radius `type_count * particle_radius`.
    pub open spec fn geometry_ok_sp(self) -> bool {
        &&& (GridParameters {
            width: self.grid_width,
            height: self.grid_height,
            depth: self.grid_depth,
        }).wf()
        &&& 1 <= self.max_force_range <= 1_000_000
        &&& 1 <= self.particle_radius <= 100_000
        &&& 1 <= self.food_radius <= 100_000
        &&& 2 * self.particle_radius < self.grid_width
        &&& 2 * self.particle_radius < self.grid_height
        &&& 2 * self.particle_radius < self.grid_depth
        &&& 1 <= self.type_count * self.particle_radius < self.max_force_range
    }

    /// The genetic rates are probabilities on the milli scale.
    pub open spec fn rates_ok_sp(self) -> bool {
        &&& 0 <= self.elite_ratio <= 1000
        &&& 0 <= self.mutation_rate <= 1000
        &&& 0 <= self.crossover_rate <= 1000
    }

    /// The clock and motion limits are in range.
    pub open spec fn timing_ok_sp(self) -> bool {
        &&& 1 <= self.epoch_duration_micros <= 1_000_000_000_000
        &&& 1 <= self.dt <= 1000
        &&& 0 <= self.damping <= 1000
        &&& 0 <= self.collision_damping <= 1000
        &&& 1 <= self.max_velocity <= 1_000_000
    }

    /// A configuration the run can be started with.
    pub open spec fn valid_sp(self) -> bool {
        self.counts_ok_sp() && self.geometry_ok_sp() && self.rates_ok_sp()
            && self.timing_ok_sp()
    }

    /// Validate the configuration and derive the physics parameters, the
    /// genetic tunables and the run parameters.  The minimum-separation
    /// radius of the force law is `type_count * particle_radius`.
    pub fn build(&self)
        -> (r: Result<(PhysicsParams, crate::evolution::GeneticConfig, SimulationParameters),
            ConfigError>)
        ensures
            r is Ok <==> self.valid_sp(),
            r is Ok ==> {
                let (phys, gen, run) = r->Ok_0;
                &&& phys.wf()
                &&& gen.wf()
                &&& run.wf()
                &&& phys.grid.width == self.grid_width
                &&& phys.grid.height == self.grid_height
                &&& phys.grid.depth == self.grid_depth
                &&& phys.boundary_mode == self.boundary_mode
                &&& phys.max_force_range == self.max_force_range
                &&& phys.min_r == self.type_count * self.particle_radius
                &&& phys.dt == self.dt
                &&& phys.damping == self.damping
                &&& phys.collision_damping == self.collision_damping
                &&& phys.max_velocity == self.max_velocity
                &&& phys.particle_radius == self.particle_radius
                &&& phys.food_radius == self.food_radius
                &&& gen.elite_ratio == self.elite_ratio
                &&& gen.mutation_rate == self.mutation_rate
                &&& gen.crossover_rate == self.crossover_rate
                &&& run.epoch_duration_micros == self.epoch_duration_micros
                &&& run.simulation_count == self.simulation_count
                &&& run.particle_count == self.particle_count
                &&& run.particle_types == self.type_count
                &&& run.current_epoch == 0
                &&& run.elapsed_micros == 0
            },
            r is Err ==> {
                ||| r->Err_0 == ConfigError::BadCounts
                ||| r->Err_0 == ConfigError::BadGeometry
                ||| r->Err_0 == ConfigError::BadRates
                ||| r->Err_0 == ConfigError::BadTiming
            },
    {
        if !(1 <= self.type_count && self.type_count <= MAX_TYPES
            && 1 <= self.particle_count
            && 1 <= self.simulation_count && self.simulation_count <= MAX_POPULATION) {
            return Err(ConfigError::BadCounts);
        }
        let grid = GridParameters {
            width: self.grid_width,
            height: self.grid_height,
            depth: self.grid_depth,
        };
        if !(2 <= self.grid_width && self.grid_width <= 1_000_000_000
            && self.grid_width % 2 == 0
            && 2 <= self.grid_height && self.grid_height <= 1_000_000_000
            && self.grid_height % 2 == 0
            && 2 <= self.grid_depth && self.grid_depth <= 1_000_000_000
            && self.grid_depth % 2 == 0
            && 1 <= self.max_force_range && self.max_force_range <= 1_000_000
            && 1 <= self.particle_radius && self.particle_radius <= 100_000
            && 1 <= self.food_radius && self.food_radius <= 100_000
            && 2 * self.particle_radius < self.grid_width
            && 2 * self.particle_radius < self.grid_height
            && 2 * self.particle_radius < self.grid_depth) {
            return Err(ConfigError::BadGeometry);
        }
        proof {
            assert(0 <= (self.type_count as int) * (self.particle_radius as int)
                <= MAX_TYPES * 100_000) by (nonlinear_arith)
                requires
                    0 <= (self.type_count as int) <= MAX_TYPES,
                    0 <= (self.particle_radius as int) <= 100_000;
        }
        let min_r = (self.type_count as i64) * self.particle_radius;
        if !(1 <= min_r && min_r < self.max_force_range) {
            return Err(ConfigError::BadGeometry);
        }
        if !(0 <= self.elite_ratio && self.elite_ratio <= 1000
            && 0 <= self.mutation_rate && self.mutation_rate <= 1000
            && 0 <= self.crossover_rate && self.crossover_rate <= 1000) {
            return Err(ConfigError::BadRates);
        }
        if !(1 <= self.epoch_duration_micros
            && self.epoch_duration_micros <= 1_000_000_000_000
            && 1 <= self.dt && self.dt <= 1000
            && 0 <= self.damping && self.damping <= 1000
            && 0 <= self.collision_damping && self.collision_damping <= 1000
            && 1 <= self.max_velocity && self.max_velocity <= 1_000_000) {
            return Err(ConfigError::BadTiming);
        }
        let phys = PhysicsParams {
            grid,
            boundary_mode: self.boundary_mode,
            max_force_range: self.max_force_range,
            min_r,
            dt: self.dt,
            damping: self.damping,
            collision_damping: self.collision_damping,
            max_velocity: self.max_velocity,
            particle_radius: self.particle_radius,
            food_radius: self.food_radius,
        };
        let gen = crate::evolution::GeneticConfig {
            elite_ratio: self.elite_ratio,
            mutation_rate: self.mutation_rate,
            crossover_rate: self.crossover_rate,
            coherence_threshold: 300,
            diversity_pressure: 100,
        };
        let run = SimulationParameters {
            current_epoch: 0,
            max_epochs: u64::MAX,
            epoch_duration_micros: self.epoch_duration_micros,
            elapsed_micros: 0,
            simulation_count: self.simulation_count,
            particle_count: self.particle_count,
            particle_types: self.type_count,
            simulation_speed: SimulationSpeed::Normal,
            max_force_range: self.max_force_range,
        };
        Ok((phys, gen, run))
    }
}

/// The pace of the simulation: paused, or 1x / 2x / 4x physical ticks per
/// displayed frame.
#[derive(Clone, Copy, Debug, PartialEq, Eq, Structural)]
pub enum SimulationSpeed {
    Paused,
    Normal,
    Fast,
    VeryFast,
}

/// How many full physical ticks one displayed frame runs at this speed.
pub open spec fn multiplier_sp(s: SimulationSpeed) -> int {
    match s {
        SimulationSpeed::Paused => 0,
        SimulationSpeed::Normal => 1,
        SimulationSpeed::Fast => 2,
        SimulationSpeed::VeryFast => 4,
    }
}

impl SimulationSpeed {
    /// The tick (and clock) multiplier of this speed.
    pub fn multiplier(&self) -> (r: u64)
        ensures
            r == multiplier_sp(*self),
    {
        match self {
            SimulationSpeed::Paused => 0,
            SimulationSpeed::Normal => 1,
            SimulationSpeed::Fast => 2,
            SimulationSpeed::VeryFast => 4,
        }
    }
}

/// The run-level parameters and the epoch clock.
pub struct SimulationParameters {
    pub current_epoch: u64,
    pub max_epochs: u64,
    pub epoch_duration_micros: u64,
    pub elapsed_micros: u64,
    pub simulation_count: usize,
    pub particle_count: usize,
    pub particle_types: usize,
    pub simulation_speed: SimulationSpeed,
    pub max_force_range: i64,
}

impl SimulationParameters {
    /// The clock never runs past the epoch duration and the counts are sane.
    pub open spec fn wf(self) -> bool {
        &&& 1 <= self.epoch_duration_micros <= 1_000_000_000_000
        &&& self.elapsed_micros <= self.epoch_duration_micros
        &&& 1 <= self.particle_types <= MAX_TYPES
        &&& 1 <= self.simulation_count <= MAX_POPULATION
        &&& self.current_epoch <= self.max_epochs
    }

    /// Advance the epoch clock by one frame delta, scaled by the active
    /// speed and capped at the epoch duration.
    pub fn tick(&mut self, delta_micros: u64)
        requires
            old(self).wf(),
            delta_micros <= 1_000_000_000,
        ensures
            final(self).wf(),
            final(self).elapsed_micros as int == vstd::math::min(
                old(self).elapsed_micros as int
                    + delta_micros as int * multiplier_sp(old(self).simulation_speed),
                old(self).epoch_duration_micros as int),
            final(self).current_epoch == old(self).current_epoch,
            final(self).max_epochs == old(self).max_epochs,
            final(self).epoch_duration_micros == old(self).epoch_duration_micros,
            final(self).simulation_count == old(self).simulation_count,
            final(self).particle_count == old(self).particle_count,
            final(self).particle_types == old(self).particle_types,
            final(self).simulation_speed == old(self).simulation_speed,
            final(self).max_force_range == old(self).max_force_range,
    {
        let m = self.simulation_speed.multiplier();
        let scaled = delta_micros * m;
        if self.epoch_duration_micros - self.elapsed_micros <= scaled {
            self.elapsed_micros = self.epoch_duration_micros;
        } else {
            self.elapsed_micros = self.elapsed_micros + scaled;
        }
    }

    /// Whether the epoch's time is up.
    pub fn is_epoch_finished(&self) -> (r: bool)
        ensures
            r == (self.elapsed_micros >= self.epoch_duration_micros),
    {
        self.elapsed_micros >= self.epoch_duration_micros
    }

    /// Open the next epoch: advance the counter and rewind the clock.
    pub fn start_new_epoch(&mut self)
        requires
            old(self).wf(),
            old(self).current_epoch < old(self).max_epochs,
        ensures
            final(self).wf(),
            final(self).current_epoch == old(self).current_epoch + 1,
            final(self).elapsed_micros == 0,
            final(self).max_epochs == old(self).max_epochs,
            final(self).epoch_duration_micros == old(self).epoch_duration_micros,
            final(self).simulation_count == old(self).simulation_count,
            final(self).particle_count == old(self).particle_count,
            final(self).particle_types == old(self).particle_types,
            final(self).simulation_speed == old(self).simulation_speed,
            final(self).max_force_range == old(self).max_force_range,
    {
        self.current_epoch = self.current_epoch + 1;
        self.elapsed_micros = 0;
    }
}

/// Run the physical ticks one displayed frame owes at the active speed: the
/// whole step (force accumulation and integration) repeats, rather than the
/// timestep being scaled, so trajectories do not depend on the frame rate.
pub fn physics_simulation_system(
    p: &PhysicsParams,
    speed: SimulationSpeed,
    genotypes: &Vec<Genotype>,
    particles: &mut Vec<ParticleState>,
    foods: &Vec<FoodItem>,
)
    requires
        p.wf(),
        forall|k: int| 0 <= k < genotypes@.len() ==> (#[trigger] genotypes@[k]).wf(),
        forall|k: int| 0 <= k < old(particles)@.len()
            ==> p.particle_ok_sp(#[trigger] old(particles)@[k]),
        forall|k: int| 0 <= k < foods@.len()
            ==> p.grid.contains_sp((#[trigger] foods@[k]).position),
        foods@.len() <= MAX_FOODS,
    ensures
        final(particles)@.len() == old(particles)@.len(),
        final(particles)@ == crate::physics::ticks_sp(*p, genotypes@, old(particles)@,
            foods@, multiplier_sp(speed)),
        forall|k: int| 0 <= k < final(particles)@.len()
            ==> p.particle_ok_sp(#[trigger] final(particles)@[k]),
        speed == SimulationSpeed::Paused ==> final(particles)@ == old(particles)@,
{
    let iterations = speed.multiplier();
    let mut it: u64 = 0;
    while it < iterations
        invariant
            p.wf(),
            forall|k: int| 0 <= k < genotypes@.len() ==> (#[trigger] genotypes@[k]).wf(),
            forall|k: int| 0 <= k < foods@.len()
                ==> p.grid.contains_sp((#[trigger] foods@[k]).position),
            foods@.len() <= MAX_FOODS,
            iterations == multiplier_sp(speed),
            0 <= it <= iterations,
            particles@.len() == old(particles)@.len(),
            particles@ == crate::physics::ticks_sp(*p, genotypes@, old(particles)@,
                foods@, it as int),
            forall|k: int| 0 <= k < particles@.len()
                ==> p.particle_ok_sp(#[trigger] particles@[k]),
        decreases iterations - it,
    {
        physics_tick(p, genotypes, particles, foods);
        it = it + 1;
    }
}

// ---------------------------------------------------------------------------
// Scoring: food collisions.

/// The first particle (least index) strictly within the collision distance
/// of `pos`, or `-1` when none is.
pub open spec fn first_collider_sp(ps: Seq<ParticleState>, pos: Vec3i, cd: int, n: int) -> int
    decreases n,
{
    if n <= 0 {
        -1
    } else {
        let prev = first_collider_sp(ps, pos, cd, n - 1);
        if prev >= 0 {
            prev
        } else if crate::torus::euclid_dist_sq_sp(ps[n - 1].position, pos) < cd * cd {
            n - 1
        } else {
            -1
        }
    }
}

/// A food item after its respawn phase: a hidden item with an elapsed timer
/// comes back; a hidden item still waiting counts the frame delta down.
pub open spec fn respawn_phase_sp(f: FoodItem, delta: u64) -> FoodItem {
    if !f.visible && f.respawn_enabled {
        if f.respawn_remaining <= delta {
            FoodItem { visible: true, respawn_remaining: 0, ..f }
        } else {
            FoodItem { respawn_remaining: (f.respawn_remaining - delta) as u64, ..f }
        }
    } else {
        f
    }
}

/// A food item after a collision consumed it.
pub open spec fn consume_sp(f: FoodItem, cooldown: u64) -> FoodItem {
    FoodItem { visible: false, respawn_remaining: cooldown, ..f }
}

/// A score sequence with `v` credited to population `sim`, saturating at the
/// score bound.
pub open spec fn bump_sp(scores: Seq<i64>, sim: int, v: int) -> Seq<i64> {
    scores.update(sim, vstd::math::min(scores[sim] + v, MAX_SCORE as int) as i64)
}

/// The foods and scores after the first `k` food items were processed: each
/// hidden item runs its respawn phase; each visible item feeds the first
/// particle within the collision distance, crediting that particle's
/// population and hiding the item until its cooldown elapses.
pub open spec fn food_scan_sp(
    fs: Seq<FoodItem>,
    ps: Seq<ParticleState>,
    cd: int,
    delta: u64,
    cooldown: u64,
    scores: Seq<i64>,
    k: int,
) -> (Seq<FoodItem>, Seq<i64>)
    decreases k,
{
    if k <= 0 {
        (fs, scores)
    } else {
        let (afs, asc) = food_scan_sp(fs, ps, cd, delta, cooldown, scores, k - 1);
        let g = respawn_phase_sp(fs[k - 1], delta);
        if g.visible {
            let h = first_collider_sp(ps, g.position, cd, ps.len() as int);
            if h >= 0 {
                (afs.update(k - 1, consume_sp(g, cooldown)),
                    bump_sp(asc, ps[h].sim_id as int, fs[k - 1].value as int))
            } else {
                (afs.update(k - 1, g), asc)
            }
        } else {
            (afs.update(k - 1, g), asc)
        }
    }
}

/// Detect and score the food collisions of one displayed frame, and run the
/// respawn timers.  Scores never decrease.
pub fn detect_food_collision(
    p: &PhysicsParams,
    foods: &mut Vec<FoodItem>,
    particles: &Vec<ParticleState>,
    scores: &mut Vec<i64>,
    delta_micros: u64,
    respawn_cooldown: u64,
)
    requires
        p.wf(),
        forall|k: int| 0 <= k < old(scores)@.len()
            ==> 0 <= #[trigger] old(scores)@[k] <= MAX_SCORE,
        forall|k: int| 0 <= k < particles@.len()
            ==> (#[trigger] particles@[k]).sim_id < old(scores)@.len(),
        forall|k: int| 0 <= k < old(foods)@.len()
            ==> 0 <= (#[trigger] old(foods)@[k]).value <= 1_000_000,
        forall|k: int| 0 <= k < particles@.len()
            ==> p.grid.contains_sp((#[trigger] particles@[k]).position),
        forall|k: int| 0 <= k < old(foods)@.len()
            ==> p.grid.contains_sp((#[trigger] old(foods)@[k]).position),
    ensures
        final(foods)@.len() == old(foods)@.len(),
        final(scores)@.len() == old(scores)@.len(),
        (final(foods)@, final(scores)@) == food_scan_sp(old(foods)@, particles@,
            p.particle_radius + p.food_radius, delta_micros, respawn_cooldown,
            old(scores)@, old(foods)@.len() as int),
        forall|k: int| 0 <= k < old(scores)@.len()
            ==> #[trigger] final(scores)@[k] >= old(scores)@[k],
        forall|k: int| 0 <= k < final(scores)@.len()
            ==> 0 <= #[trigger] final(scores)@[k] <= MAX_SCORE,
{
    let cd = p.particle_radius + p.food_radius;
    let n = foods.len();
    let m = particles.len();
    let mut k: usize = 0;
    while k < n
        invariant
            p.wf(),
            cd == p.particle_radius + p.food_radius,
            n == foods@.len() == old(foods)@.len(),
            m == particles@.len(),
            scores@.len() == old(scores)@.len(),
            forall|i: int| 0 <= i < old(scores)@.len()
                ==> 0 <= #[trigger] old(scores)@[i] <= MAX_SCORE,
            forall|i: int| 0 <= i < particles@.len()
                ==> (#[trigger] particles@[i]).sim_id < old(scores)@.len(),
            forall|i: int| 0 <= i < old(foods)@.len()
                ==> 0 <= (#[trigger] old(foods)@[i]).value <= 1_000_000,
            forall|i: int| 0 <= i < particles@.len()
                ==> p.grid.contains_sp((#[trigger] particles@[i]).position),
            forall|i: int| 0 <= i < old(foods)@.len()
                ==> p.grid.contains_sp((#[trigger] old(foods)@[i]).position),
            0 <= k <= n,
            (foods@, scores@) == food_scan_sp(old(foods)@, particles@, cd as int,
                delta_micros, respawn_cooldown, old(scores)@, k as int),
            forall|i: int| k <= i < n ==> #[trigger] foods@[i] == old(foods)@[i],
            forall|i: int| 0 <= i < scores@.len()
                ==> #[trigger] scores@[i] >= old(scores)@[i],
            forall|i: int| 0 <= i < scores@.len()
                ==> 0 <= #[trigger] scores@[i] <= MAX_SCORE,
        decreases n - k,
    {
        let f = foods[k];

        // Respawn phase.
        let g = if !f.visible && f.respawn_enabled {
            if f.respawn_remaining <= delta_micros {
                FoodItem { visible: true, respawn_remaining: 0, ..f }
            } else {
                FoodItem { respawn_remaining: f.respawn_remaining - delta_micros, ..f }
            }
        } else {
            f
        };

        if g.visible {
            // First particle within the collision distance, if any.
            let mut found = false;
            let mut hit: usize = 0;
            let mut j: usize = 0;
            proof {
                assert(cd * cd <= 200_000 * 200_000) by (nonlinear_arith)
                    requires 0 <= cd <= 200_000;
            }
            while j < m
                invariant
                    m == particles@.len(),
                    0 <= j <= m,
                    0 <= cd,
                    cd * cd <= 200_000 * 200_000,
                    p.wf(),
                    p.grid.contains_sp(g.position),
                    forall|i: int| 0 <= i < particles@.len()
                        ==> p.grid.contains_sp((#[trigger] particles@[i]).position),
                    found ==> hit < m,
                    (if found { hit as int } else { -1 })
                        == first_collider_sp(particles@, g.position, cd as int, j as int),
                decreases m - j,
            {
                if !found {
                    let pp = particles[j].position;
                    let dx = g.position.x - pp.x;
                    let dy = g.position.y - pp.y;
                    let dz = g.position.z - pp.z;
                    proof {
                        crate::physics::lemma_axis_squares_bound(
                            Vec3i { x: dx, y: dy, z: dz });
                    }
                    let d2 = dx * dx + dy * dy + dz * dz;
                    if d2 < cd * cd {
                        found = true;
                        hit = j;
                    }
                }
                j = j + 1;
            }
            if found {
                let sim = particles[hit].sim_id;
                let old_score = scores[sim];
                let v = f.value;
                let bumped = if old_score + v > MAX_SCORE { MAX_SCORE } else { old_score + v };
                scores[sim] = bumped;
                foods[k] = FoodItem { visible: false, respawn_remaining: respawn_cooldown, ..g };
            } else {
                foods[k] = g;
            }
        } else {
            foods[k] = g;
        }
        k = k + 1;
    }
}

// ---------------------------------------------------------------------------
// Epoch reset.

/// A uniformly random position inside the domain box.
pub fn random_position_in_grid(grid: &GridParameters, rng: &mut rand::rngs::StdRng)
    -> (r: Vec3i)
    requires
        grid.wf(),
    ensures
        grid.contains_sp(r),
{
    let hw = grid.width / 2;
    let hh = grid.height / 2;
    let hd = grid.depth / 2;
    Vec3i {
        x: draw_in_range(rng, -hw, hw - 1),
        y: draw_in_range(rng, -hh, hh - 1),
        z: draw_in_range(rng, -hd, hd - 1),
    }
}

/// Reset the world for a fresh epoch: every particle of every population is
/// repositioned to the same freshly sampled layout (slot `i` of each
/// population gets template position `i`), velocities are zeroed, every
/// score is zeroed, and every food item is repositioned, made visible and
/// has its respawn timer cleared.  The sampled template is returned.
pub fn reset_for_new_epoch(
    grid: &GridParameters,
    per_population: usize,
    particles: &mut Vec<ParticleState>,
    foods: &mut Vec<FoodItem>,
    scores: &mut Vec<i64>,
    rng: &mut rand::rngs::StdRng,
) -> (template: Vec<Vec3i>)
    requires
        grid.wf(),
        per_population >= 1,
    ensures
        template@.len() == per_population,
        forall|i: int| 0 <= i < template@.len()
            ==> grid.contains_sp(#[trigger] template@[i]),
        final(particles)@.len() == old(particles)@.len(),
        forall|i: int| 0 <= i < final(particles)@.len()
            ==> #[trigger] final(particles)@[i] == (ParticleState {
                position: template@[i % (per_population as int)],
                velocity: Vec3i { x: 0, y: 0, z: 0 },
                ..old(particles)@[i]
            }),
        final(scores)@.len() == old(scores)@.len(),
        forall|i: int| 0 <= i < final(scores)@.len() ==> #[trigger] final(scores)@[i] == 0,
        final(foods)@.len() == old(foods)@.len(),
        forall|i: int| 0 <= i < final(foods)@.len() ==> {
            let f = #[trigger] final(foods)@[i];
            &&& grid.contains_sp(f.position)
            &&& f.visible
            &&& f.respawn_remaining == 0
            &&& f.value == old(foods)@[i].value
            &&& f.respawn_enabled == old(foods)@[i].respawn_enabled
        },
{
    // One shared template of positions, reused by every population so each
    // is evaluated on the same layout.
    let mut template: Vec<Vec3i> = Vec::new();
    let mut t: usize = 0;
    while t < per_population
        invariant
            grid.wf(),
            0 <= t <= per_population,
            template@.len() == t,
            forall|i: int| 0 <= i < t ==> grid.contains_sp(#[trigger] template@[i]),
        decreases per_population - t,
    {
        template.push(random_position_in_grid(grid, rng));
        t = t + 1;
    }

    let n = particles.len();
    let mut i: usize = 0;
    while i < n
        invariant
            grid.wf(),
            per_population >= 1,
            template@.len() == per_population,
            n == particles@.len() == old(particles)@.len(),
            0 <= i <= n,
            forall|j: int| i <= j < n ==> #[trigger] particles@[j] == old(particles)@[j],
            forall|j: int| 0 <= j < i
                ==> #[trigger] particles@[j] == (ParticleState {
                    position: template@[j % (per_population as int)],
                    velocity: Vec3i { x: 0, y: 0, z: 0 },
                    ..old(particles)@[j]
                }),
        decreases n - i,
    {
        let slot = i % per_population;
        let s = particles[i];
        particles[i] = ParticleState {
            position: template[slot],
            velocity: Vec3i { x: 0, y: 0, z: 0 },
            ..s
        };
        i = i + 1;
    }

    let sn = scores.len();
    let mut sidx: usize = 0;
    while sidx < sn
        invariant
            sn == scores@.len() == old(scores)@.len(),
            0 <= sidx <= sn,
            forall|j: int| 0 <= j < sidx ==> #[trigger] scores@[j] == 0,
        decreases sn - sidx,
    {
        scores[sidx] = 0;
        sidx = sidx + 1;
    }

    let fn_ = foods.len();
    let mut fidx: usize = 0;
    while fidx < fn_
        invariant
            grid.wf(),
            fn_ == foods@.len() == old(foods)@.len(),
            0 <= fidx <= fn_,
            forall|j: int| fidx <= j < fn_ ==> #[trigger] foods@[j] == old(foods)@[j],
            forall|j: int| 0 <= j < fidx ==> {
                let f = #[trigger] foods@[j];
                &&& grid.contains_sp(f.position)
                &&& f.visible
                &&& f.respawn_remaining == 0
                &&& f.value == old(foods)@[j].value
                &&& f.respawn_enabled == old(foods)@[j].respawn_enabled
            },
        decreases fn_ - fidx,
    {
        let f = foods[fidx];
        foods[fidx] = FoodItem {
            position: random_position_in_grid(grid, rng),
            visible: true,
            respawn_remaining: 0,
            ..f
        };
        fidx = fidx + 1;
    }
    template
}

} // verus!
