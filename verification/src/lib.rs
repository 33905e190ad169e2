//! Verified core of a particle-life evolution simulator.
//!
//! Populations of typed particles attract and repel one another according to a
//! genetically encoded force matrix.  Every epoch a genetic algorithm scores the
//! populations and breeds the next generation of genomes.
//!
//! All real-valued quantities (forces, positions, velocities, scores, rates)
//! are carried as integers in thousandths ("milli units").  Every computation
//! is exact integer arithmetic, so a tick is bit-for-bit reproducible across
//! runs and across executors, which is what makes replaying a population safe.

pub mod coherence;
pub mod evolution;
pub mod fixed;
pub mod genome;
pub mod physics;
pub mod rng;
pub mod sim;
pub mod spatial;
pub mod torus;
pub mod variation;

pub use fixed::Vec3i;
