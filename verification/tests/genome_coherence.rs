use particle_life::genome::{Genotype, GenomeError, MAX_SCORE};
use particle_life::coherence::{calculate_genetic_distance, calculate_population_diversity};
use particle_life::rng::seed_rng;
use particle_life::variation::clone_genotype;

fn genome_from(force_matrix: Vec<i64>, food_forces: Vec<i64>, type_count: usize) -> Genotype {
    Genotype::from_parts(force_matrix, food_forces, type_count, Vec::new()).unwrap()
}

#[test]
fn decode_force_stays_in_range() {
    // Decoded forces lie in [-2.0, 2.0] for every valid pair.
    let g = genome_from(
        vec![-2000, 2000, 1999, -1999, 0, 7, -7, 2000, -2000],
        vec![2000, -2000, 0],
        3,
    );
    for a in 0..3 {
        for b in 0..3 {
            let f = g.get_force(a, b);
            assert!(f >= -2000 && f <= 2000);
            let ff = g.get_food_force(a);
            assert!(ff >= -2000 && ff <= 2000);
        }
    }
}

#[test]
fn decode_force_out_of_range_is_zero() {
    let g = genome_from(vec![500, -500, 250, -250], vec![100, -100], 2);
    assert_eq!(g.get_force(2, 0), 0);
    assert_eq!(g.get_force(0, 2), 0);
    assert_eq!(g.get_food_force(5), 0);
}

#[test]
fn decode_force_is_deterministic() {
    // Two decodes of an unmodified genome agree.
    let g = genome_from(vec![123, -456, 789, -12], vec![34, -56], 2);
    for a in 0..2 {
        for b in 0..2 {
            assert_eq!(g.get_force(a, b), g.get_force(a, b));
        }
    }
    assert_eq!(g.get_food_force(1), g.get_food_force(1));
}

#[test]
fn coherence_is_bounded() {
    // Coherence lies in [0, 1000] for any well-formed genome.
    let g = genome_from(
        vec![2000, 2000, 2000, 2000, 2000, 2000, 2000, 2000, 2000],
        vec![2000, 2000, 2000],
        3,
    );
    let c = g.calculate_strategy_coherence();
    assert!(c >= 0 && c <= 1000);

    let mut rng = seed_rng(7);
    for seed in 0..5u64 {
        let _ = seed;
        let r = Genotype::random(4, &mut rng);
        let c = r.calculate_strategy_coherence();
        assert!(c >= 0 && c <= 1000);
        assert_eq!(c, r.strategy_coherence);
    }
}

#[test]
fn coherence_single_type_is_bounded() {
    // The degenerate single-type genome is still scored in range.
    let g = genome_from(vec![-300], vec![800], 1);
    let c = g.calculate_strategy_coherence();
    assert!(c >= 0 && c <= 1000);
    assert_eq!(c, 500);
}

#[test]
fn genetic_distance_non_negative_and_zero_iff_equal() {
    // Distance is non-negative, and zero exactly for identical data.
    let g1 = genome_from(vec![100, -200, 300, -400], vec![10, -20], 2);
    let g2 = clone_genotype(&g1);
    assert_eq!(calculate_genetic_distance(&g1, &g2), 0);

    let g3 = genome_from(vec![100, -200, 300, -401], vec![10, -20], 2);
    let d = calculate_genetic_distance(&g1, &g3);
    assert!(d > 0);

    let g4 = genome_from(vec![100, -200, 300, -400], vec![10, -21], 2);
    assert!(calculate_genetic_distance(&g1, &g4) > 0);
}

#[test]
fn genetic_distance_exact_value() {
    // distance over one 3-4-0-0 difference: sqrt(9 + 16) = 5.
    let g1 = genome_from(vec![3, 4, 0, 0], vec![0, 0], 2);
    let g2 = genome_from(vec![0, 0, 0, 0], vec![0, 0], 2);
    assert_eq!(calculate_genetic_distance(&g1, &g2), 5);
}

#[test]
fn population_diversity_small_populations() {
    let g1 = genome_from(vec![3, 4, 0, 0], vec![0, 0], 2);
    let g2 = genome_from(vec![0, 0, 0, 0], vec![0, 0], 2);
    // Fewer than two genomes: diversity is zero.
    assert_eq!(calculate_population_diversity(&vec![clone_genotype(&g1)]), 0);
    // One pair at distance 5: the mean is 5.
    let d = calculate_population_diversity(&vec![clone_genotype(&g1), clone_genotype(&g2)]);
    assert_eq!(d, 5);
}

#[test]
fn from_parts_rejects_malformed_genomes() {
    assert!(matches!(
        Genotype::from_parts(vec![0; 9], vec![0; 3], 0, Vec::new()),
        Err(GenomeError::BadTypeCount)
    ));
    assert!(matches!(
        Genotype::from_parts(vec![0; 8], vec![0; 3], 3, Vec::new()),
        Err(GenomeError::ForceMatrixLength)
    ));
    assert!(matches!(
        Genotype::from_parts(vec![0; 9], vec![0; 2], 3, Vec::new()),
        Err(GenomeError::FoodForcesLength)
    ));
    assert!(matches!(
        Genotype::from_parts(vec![0, 0, 0, 2001], vec![0, 0], 2, Vec::new()),
        Err(GenomeError::ValueOutOfRange)
    ));
    assert!(matches!(
        Genotype::from_parts(vec![0; 4], vec![0, 0], 2, vec![1; 11]),
        Err(GenomeError::BadHistory)
    ));
    assert!(matches!(
        Genotype::from_parts(vec![0; 4], vec![0, 0], 2, vec![-1]),
        Err(GenomeError::BadHistory)
    ));
    assert!(Genotype::from_parts(vec![0; 4], vec![0, 0], 2, vec![5, 6, 7]).is_ok());
}

#[test]
fn fitness_history_keeps_ten_most_recent() {
    let mut g = Genotype::new(2);
    for i in 0..12 {
        g.update_fitness_history(i * 100);
    }
    assert_eq!(g.fitness_history.len(), 10);
    assert_eq!(g.fitness_history[0], 200);
    assert_eq!(g.fitness_history[9], 1100);
}

#[test]
fn fitness_trend_compares_recent_to_oldest() {
    let mut g = Genotype::new(2);
    assert_eq!(g.get_fitness_trend(), 0);
    g.update_fitness_history(0);
    g.update_fitness_history(0);
    assert_eq!(g.get_fitness_trend(), 0);
    g.update_fitness_history(0);
    g.update_fitness_history(300);
    g.update_fitness_history(600);
    g.update_fitness_history(900);
    // recent mean (300+600+900)/3 = 600, older mean 0.
    assert_eq!(g.get_fitness_trend(), 600);
}

#[test]
fn score_bound_is_respected_by_history() {
    let mut g = Genotype::new(2);
    g.update_fitness_history(MAX_SCORE);
    assert_eq!(g.fitness_history[0], MAX_SCORE);
}

#[test]
fn archived_genomes_recompute_an_unset_coherence() {
    let g = Genotype::from_archive(vec![100, 900, -900, -100], vec![50, -50], 2, vec![5], 0)
        .unwrap();
    // A stored zero is unset: the score comes back recomputed.
    assert_eq!(g.strategy_coherence, g.calculate_strategy_coherence());
    assert_eq!(g.force_matrix, vec![100, 900, -900, -100]);
    assert_eq!(g.fitness_history, vec![5]);

    // A stored nonzero value is kept as it was.
    let h = Genotype::from_archive(vec![100, 900, -900, -100], vec![50, -50], 2, vec![5], 417)
        .unwrap();
    assert_eq!(h.strategy_coherence, 417);

    // A stored coherence outside [0, 1000] is rejected, not truncated.
    assert!(matches!(
        Genotype::from_archive(vec![0; 4], vec![0, 0], 2, Vec::new(), 1001),
        Err(GenomeError::BadCoherence)
    ));
    assert!(matches!(
        Genotype::from_archive(vec![0; 4], vec![0, 0], 2, Vec::new(), -1),
        Err(GenomeError::BadCoherence)
    ));
    // The structural checks still apply.
    assert!(matches!(
        Genotype::from_archive(vec![0; 3], vec![0, 0], 2, Vec::new(), 500),
        Err(GenomeError::ForceMatrixLength)
    ));
}
