use particle_life::genome::Genotype;
use particle_life::evolution::{
    EpochStats, GeneticConfig, ScoredGenome, calculate_combined_fitness,
    calculate_adaptive_mutation_rate, calculate_epoch_stats, collect_and_evaluate_genomes,
    rank_genomes, generate_improved_population, enhanced_tournament_selection,
};
use particle_life::rng::seed_rng;
use particle_life::variation::clone_genotype;

fn genome_from(force_matrix: Vec<i64>, food_forces: Vec<i64>, type_count: usize) -> Genotype {
    let mut g = Genotype::from_parts(force_matrix, food_forces, type_count, Vec::new()).unwrap();
    g.strategy_coherence = g.calculate_strategy_coherence();
    g
}

fn scored(genomes: &Vec<Genotype>, scores: &Vec<i64>) -> Vec<ScoredGenome> {
    collect_and_evaluate_genomes(genomes, scores, 1)
}

#[test]
fn epoch_stats_exact_values() {
    let genomes = vec![
        genome_from(vec![100, 200, 300, 400], vec![10, -10], 2),
        genome_from(vec![-100, -200, -300, -400], vec![-10, 10], 2),
        genome_from(vec![0, 0, 0, 0], vec![0, 0], 2),
    ];
    let sc = scored(&genomes, &vec![1000, 3000, 2000]);
    let stats = calculate_epoch_stats(&sc, None);
    assert_eq!(stats.best_score, 3000);
    assert_eq!(stats.worst_score, 1000);
    assert_eq!(stats.average_score, 2000);
    assert_eq!(stats.median_score, 2000);
    // variance = (1e6 + 1e6 + 0) / 3 = 666666; isqrt = 816.
    assert_eq!(stats.std_deviation, 816);
    assert_eq!(stats.improvement, 0);

    let prev = stats;
    let sc2 = scored(&genomes, &vec![1000, 5000, 2000]);
    let stats2 = calculate_epoch_stats(&sc2, Some(&prev));
    assert_eq!(stats2.improvement, 2000);
}

#[test]
fn combined_fitness_exact_value() {
    let g = genome_from(vec![0, 1000, -1000, 0], vec![100, -100], 2);
    let coherence = g.strategy_coherence;
    let sg = ScoredGenome {
        genotype: g,
        score: 750,
        generation: 1,
        coherence,
        fitness_trend: 0,
    };
    let stats = EpochStats {
        best_score: 1000,
        worst_score: 500,
        average_score: 750,
        median_score: 750,
        std_deviation: 0,
        improvement: 0,
        average_coherence: 500,
        diversity_index: 500,
    };
    let cfg = GeneticConfig::optimized();
    let f = calculate_combined_fitness(&sg, &stats, &cfg);
    // normalized score (750-500)/(1000-500) = 0.5 -> 300 of the 600 share;
    // plus the coherence bonus share.
    let ns_part = 500 * 600 / 1000;
    let cb = if coherence > 300 { (coherence - 300) * 1000 / 700 } else { 0 };
    let expected = ns_part + cb * 300 / 1000;
    assert_eq!(f, expected);
    assert!(f >= 0 && f <= 1000);
}

#[test]
fn adaptive_mutation_rate_follows_the_factors() {
    let mut stats = EpochStats {
        best_score: 0,
        worst_score: 0,
        average_score: 0,
        median_score: 0,
        std_deviation: 0,
        improvement: 0,
        average_coherence: 0,
        diversity_index: 200,
    };
    // low diversity (x2), stagnation (x1.5), low coherence (x1.8):
    // 150 * 2 * 1.5 * 1.8 = 810 -> clamped to 500.
    assert_eq!(calculate_adaptive_mutation_rate(&stats, 150, 300), 500);
    stats.diversity_index = 900;
    stats.improvement = 20_000;
    // high diversity (x0.7), good progress (x0.8), high coherence (x0.5):
    // 150 * 0.7 * 0.8 * 0.5 = 42.
    assert_eq!(calculate_adaptive_mutation_rate(&stats, 150, 900), 42);
    // The floor.
    assert_eq!(calculate_adaptive_mutation_rate(&stats, 10, 900), 10);
}

#[test]
fn ranking_sorts_by_combined_fitness() {
    let genomes = vec![
        genome_from(vec![0, 0, 0, 0], vec![0, 0], 2),
        genome_from(vec![0, 1000, -1000, 0], vec![100, -100], 2),
        genome_from(vec![500, 500, 500, 500], vec![100, 100], 2),
    ];
    let sc = scored(&genomes, &vec![100, 900, 500]);
    let stats = calculate_epoch_stats(&sc, None);
    let cfg = GeneticConfig::optimized();
    let (ranked, perm) = rank_genomes(&sc, &stats, &cfg);
    assert_eq!(ranked.len(), 3);
    assert_eq!(perm.len(), 3);
    let k0 = calculate_combined_fitness(&ranked[0], &stats, &cfg);
    let k1 = calculate_combined_fitness(&ranked[1], &stats, &cfg);
    let k2 = calculate_combined_fitness(&ranked[2], &stats, &cfg);
    assert!(k0 >= k1 && k1 >= k2);
    // The permutation is a bijection on {0, 1, 2}.
    let mut seen = vec![false; 3];
    for &p in &perm {
        assert!(p < 3 && !seen[p]);
        seen[p] = true;
    }
}

#[test]
fn next_generation_has_exactly_the_target_size() {
    // The output generation always has exactly the requested size.
    let mut rng = seed_rng(42);
    let genomes = vec![
        genome_from(vec![0, 1000, -1000, 0], vec![100, -100], 2),
        genome_from(vec![200, -300, 400, -500], vec![50, -50], 2),
        genome_from(vec![0, 0, 0, 0], vec![0, 0], 2),
    ];
    let sc = scored(&genomes, &vec![900, 500, 100]);
    let stats = calculate_epoch_stats(&sc, None);
    let cfg = GeneticConfig::optimized();
    let (ranked, _) = rank_genomes(&sc, &stats, &cfg);
    for target in [1usize, 2, 3, 6, 17] {
        let out = generate_improved_population(&ranked, target, &cfg, &stats, &mut rng);
        assert_eq!(out.len(), target);
        for g in &out {
            assert_eq!(g.type_count, 2);
            assert_eq!(g.strategy_coherence, g.calculate_strategy_coherence());
        }
    }
}

#[test]
fn elites_survive_up_to_a_light_mutation() {
    // The top ceil(target * elite_ratio) genomes reappear at the head of
    // the next generation, moved by at most one light mutation step.
    let mut rng = seed_rng(99);
    let genomes = vec![
        genome_from(vec![0, 1000, -1000, 0], vec![100, -100], 2),
        genome_from(vec![200, -300, 400, -500], vec![50, -50], 2),
        genome_from(vec![0, 0, 0, 0], vec![0, 0], 2),
        genome_from(vec![-700, 900, 100, -100], vec![20, -20], 2),
    ];
    let sc = scored(&genomes, &vec![900, 700, 100, 400]);
    let stats = calculate_epoch_stats(&sc, None);
    let cfg = GeneticConfig::optimized();
    let (ranked, _) = rank_genomes(&sc, &stats, &cfg);
    let target = 8usize;
    // ceil(8 * 0.3) = 3 elites.
    let elite_count = 3usize;
    let out = generate_improved_population(&ranked, target, &cfg, &stats, &mut rng);
    assert_eq!(out.len(), target);
    for e in 0..elite_count {
        let parent = &ranked[e].genotype;
        let child = &out[e];
        assert_eq!(child.type_count, parent.type_count);
        assert_eq!(child.force_matrix.len(), parent.force_matrix.len());
        for i in 0..child.force_matrix.len() {
            assert!((child.force_matrix[i] - parent.force_matrix[i]).abs() <= 200);
        }
        for i in 0..child.food_forces.len() {
            assert!((child.food_forces[i] - parent.food_forces[i]).abs() <= 200);
        }
    }
}

#[test]
fn tournament_returns_a_well_formed_parent() {
    let mut rng = seed_rng(3);
    let genomes = vec![
        genome_from(vec![0, 1000, -1000, 0], vec![100, -100], 2),
        genome_from(vec![200, -300, 400, -500], vec![50, -50], 2),
    ];
    let sc = scored(&genomes, &vec![900, 500]);
    let cfg = GeneticConfig::optimized();
    let winner = enhanced_tournament_selection(&sc, &cfg, &mut rng);
    assert_eq!(winner.type_count, 2);
    assert_eq!(winner.force_matrix.len(), 4);
}

#[test]
fn crossover_mixes_the_parents() {
    let mut rng = seed_rng(5);
    let p1 = genome_from(vec![100, 100, 100, 100], vec![100, 100], 2);
    let p2 = genome_from(vec![-100, -100, -100, -100], vec![-100, -100], 2);
    let child = p1.crossover(&p2, &mut rng);
    assert_eq!(child.type_count, 2);
    for i in 0..4 {
        let v = child.force_matrix[i];
        assert!(v == p1.force_matrix[i] || v == p2.force_matrix[i]);
    }
    for i in 0..2 {
        let v = child.food_forces[i];
        assert!(v == p1.food_forces[i] || v == p2.food_forces[i]);
    }
    assert_eq!(child.strategy_coherence, child.calculate_strategy_coherence());
}

#[test]
fn mutation_is_clamped_and_bounded() {
    let mut rng = seed_rng(11);
    let mut g = genome_from(vec![2000, -2000, 0, 1990], vec![1995, -1995], 2);
    let before = clone_genotype(&g);
    g.mutate(1000, &mut rng);
    for i in 0..4 {
        assert!(g.force_matrix[i] >= -2000 && g.force_matrix[i] <= 2000);
        assert!((g.force_matrix[i] - before.force_matrix[i]).abs() <= 200);
    }
    for i in 0..2 {
        assert!(g.food_forces[i] >= -2000 && g.food_forces[i] <= 2000);
        assert!((g.food_forces[i] - before.food_forces[i]).abs() <= 200);
    }
    assert_eq!(g.strategy_coherence, g.calculate_strategy_coherence());
}

#[test]
fn random_genomes_are_scored_and_well_formed() {
    let mut rng = seed_rng(21);
    let g = Genotype::random(3, &mut rng);
    assert_eq!(g.type_count, 3);
    assert_eq!(g.force_matrix.len(), 9);
    assert_eq!(g.food_forces.len(), 3);
    for &v in &g.force_matrix {
        assert!(v >= -2000 && v <= 2000);
    }
    assert_eq!(g.strategy_coherence, g.calculate_strategy_coherence());
}

#[test]
fn random_genomes_draw_within_the_documented_ranges() {
    // Self-repulsion on the diagonal, all other draws within one unit.
    let mut rng = seed_rng(31);
    for _ in 0..3 {
        let g = Genotype::random(3, &mut rng);
        for a in 0..3 {
            let d = g.get_force(a, a);
            assert!(d >= -1000 && d <= -100);
            let f = g.get_food_force(a);
            assert!(f >= -1000 && f <= 1000);
            for b in 0..3 {
                if a != b {
                    let v = g.get_force(a, b);
                    assert!(v >= -1000 && v <= 1000);
                }
            }
        }
    }
}

#[test]
fn tournament_winner_comes_from_the_population() {
    // Selection picks a member; it never fabricates a genome.
    let mut rng = seed_rng(77);
    let genomes = vec![
        genome_from(vec![111, 222, 333, 444], vec![11, -11], 2),
        genome_from(vec![-111, -222, -333, -444], vec![-11, 11], 2),
        genome_from(vec![555, -555, 666, -666], vec![22, -22], 2),
    ];
    let sc = scored(&genomes, &vec![900, 500, 100]);
    let cfg = GeneticConfig::optimized();
    for _ in 0..10 {
        let winner = enhanced_tournament_selection(&sc, &cfg, &mut rng);
        let mut member = false;
        for entry in &sc {
            if winner.force_matrix == entry.genotype.force_matrix
                && winner.food_forces == entry.genotype.food_forces
            {
                member = true;
            }
        }
        assert!(member);
    }
}
