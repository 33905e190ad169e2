//! The evolution engine: once per epoch it scores every population, ranks the
//! genomes by a combined fitness, and breeds the next generation.
//!
//! Combined fitness mixes the normalized raw score (weight 0.6), a coherence
//! bonus above the threshold (weight 0.3) and a capped fitness-trend bonus
//! (weight 0.1).  The next generation keeps the top elites (lightly mutated),
//! fills the remaining slots by tournament selection with crossover or
//! cloning plus adaptive mutation, and replaces a slice of the non-elites
//! with fresh random genomes when diversity has collapsed.

use vstd::prelude::*;
use crate::fixed::{abs_sp, clamp_sp, isqrt_sp, isqrt, abs_i64, clamp_i64};
use crate::genome::{Genotype, MAX_TYPES, MAX_SCORE, fitness_trend_sp, genome_data_eq_sp};
use crate::coherence::{coherence_sp, diversity_sp, uniform_genomes_sp, MAX_POPULATION,
    calculate_population_diversity};
use crate::variation::clone_genotype;
use crate::rng::{draw_in_range, draw_milli, draw_index};
use vstd::assert_multisets_equal;

verus! {

/// One population's genome together with its scoring context.
pub struct ScoredGenome {
    pub genotype: Genotype,
    pub score: i64,
    pub generation: u64,
    pub coherence: i64,
    pub fitness_trend: i64,
}

impl ScoredGenome {
    /// The genome is well formed and the cached fields are in range.
    pub open spec fn wf(self) -> bool {
        &&& self.genotype.wf()
        &&& 0 <= self.score <= MAX_SCORE
        &&& 0 <= self.coherence <= 1000
        &&& -MAX_SCORE <= self.fitness_trend <= MAX_SCORE
    }
}

/// Every entry is well formed with one shared type count.
pub open spec fn uniform_scored_sp(s: Seq<ScoredGenome>) -> bool {
    forall|i: int| 0 <= i < s.len()
        ==> (#[trigger] s[i]).wf() && s[i].genotype.type_count == s[0].genotype.type_count
}

/// Population-wide statistics of one epoch.
#[derive(Clone, Copy, Debug, PartialEq, Eq, Structural)]
pub struct EpochStats {
    pub best_score: i64,
    pub worst_score: i64,
    pub average_score: i64,
    pub median_score: i64,
    pub std_deviation: i64,
    pub improvement: i64,
    pub average_coherence: i64,
    pub diversity_index: i64,
}

impl Default for EpochStats {
    /// All-zero statistics, as for an epoch with no populations.
    fn default() -> (r: EpochStats)
        ensures
            r == (EpochStats {
                best_score: 0,
                worst_score: 0,
                average_score: 0,
                median_score: 0,
                std_deviation: 0,
                improvement: 0,
                average_coherence: 0,
                diversity_index: 0,
            }),
    {
        EpochStats {
            best_score: 0,
            worst_score: 0,
            average_score: 0,
            median_score: 0,
            std_deviation: 0,
            improvement: 0,
            average_coherence: 0,
            diversity_index: 0,
        }
    }
}

/// The genetic-algorithm tunables, on the milli scale.
#[derive(Clone, Copy, Debug, PartialEq, Eq, Structural)]
pub struct GeneticConfig {
    pub elite_ratio: i64,
    pub mutation_rate: i64,
    pub crossover_rate: i64,
    pub coherence_threshold: i64,
    pub diversity_pressure: i64,
}

impl GeneticConfig {
    /// All rates are probabilities and the threshold stays below one.
    pub open spec fn wf(self) -> bool {
        &&& 0 <= self.elite_ratio <= 1000
        &&& 0 <= self.mutation_rate <= 1000
        &&& 0 <= self.crossover_rate <= 1000
        &&& 0 <= self.coherence_threshold <= 999
        &&& 0 <= self.diversity_pressure <= 1000
    }

    /// The tuning that favours preserving coherent strategies: strong
    /// elitism, moderate mutation, sparing crossover.
    pub fn optimized() -> (r: GeneticConfig)
        ensures
            r.wf(),
            r == (GeneticConfig {
                elite_ratio: 300,
                mutation_rate: 150,
                crossover_rate: 250,
                coherence_threshold: 300,
                diversity_pressure: 100,
            }),
    {
        GeneticConfig {
            elite_ratio: 300,
            mutation_rate: 150,
            crossover_rate: 250,
            coherence_threshold: 300,
            diversity_pressure: 100,
        }
    }
}

// ---------------------------------------------------------------------------
// Combined fitness.

/// The combined fitness of one scored genome on the `[0, 1000]` scale:
/// normalized score (0.6) + coherence bonus (0.3) + capped trend bonus (0.1).
/// The normalization clamps the score into the epoch's worst/best band, so
/// the fitness is defined for any statistics; a score from the band itself
/// (as the engine always produces) is rescaled linearly.
pub open spec fn combined_fitness_sp(g: ScoredGenome, stats: EpochStats, cfg: GeneticConfig)
    -> int {
    let ns = if stats.best_score > stats.worst_score {
        clamp_sp(g.score - stats.worst_score, 0, stats.best_score - stats.worst_score)
            * 1000 / (stats.best_score - stats.worst_score)
    } else {
        500
    };
    let cb = if g.coherence > cfg.coherence_threshold {
        (g.coherence - cfg.coherence_threshold) * 1000 / (1000 - cfg.coherence_threshold)
    } else {
        0
    };
    let tb_raw = if g.fitness_trend > 0 { g.fitness_trend / 10 } else { 0 };
    let tb = if tb_raw > 1000 { 1000 } else { tb_raw };
    ns * 600 / 1000 + cb * 300 / 1000 + tb * 100 / 1000
}

/// Rank one genome by normalized score, coherence bonus and trend bonus.
pub fn calculate_combined_fitness(g: &ScoredGenome, stats: &EpochStats, cfg: &GeneticConfig)
    -> (r: i64)
    requires
        g.wf(),
        cfg.wf(),
        -MAX_SCORE <= stats.worst_score <= MAX_SCORE,
        -MAX_SCORE <= stats.best_score <= MAX_SCORE,
    ensures
        r == combined_fitness_sp(*g, *stats, *cfg),
        0 <= r <= 1000,
{
    let ns: i64 = if stats.best_score > stats.worst_score {
        let span = stats.best_score - stats.worst_score;
        let above = clamp_i64(g.score - stats.worst_score, 0, span);
        proof {
            assert(above * 1000 <= span * 1000) by (nonlinear_arith)
                requires above <= span;
            assert(above * 1000 >= 0) by (nonlinear_arith)
                requires above >= 0;
            vstd::arithmetic::div_mod::lemma_div_is_ordered(
                above * 1000, span * 1000, span as int);
            vstd::arithmetic::div_mod::lemma_div_multiples_vanish(1000, span as int);
        }
        above * 1000 / span
    } else {
        500
    };
    let cb: i64 = if g.coherence > cfg.coherence_threshold {
        let span = 1000 - cfg.coherence_threshold;
        let above = g.coherence - cfg.coherence_threshold;
        proof {
            assert(above * 1000 <= span * 1000) by (nonlinear_arith)
                requires above <= span;
            assert(above * 1000 >= 0) by (nonlinear_arith)
                requires above >= 0;
            vstd::arithmetic::div_mod::lemma_div_is_ordered(
                above * 1000, span * 1000, span as int);
            vstd::arithmetic::div_mod::lemma_div_multiples_vanish(1000, span as int);
        }
        above * 1000 / span
    } else {
        0
    };
    let tb_raw: i64 = if g.fitness_trend > 0 { g.fitness_trend / 10 } else { 0 };
    let tb: i64 = if tb_raw > 1000 { 1000 } else { tb_raw };
    ns * 600 / 1000 + cb * 300 / 1000 + tb * 100 / 1000
}

// ---------------------------------------------------------------------------
// Scoring: snapshot statistics of the epoch.

/// Best raw score among the first `n` entries (`0` for none, as the default).
pub open spec fn best_score_sp(s: Seq<ScoredGenome>, n: int) -> int
    decreases n,
{
    if n <= 1 {
        if n == 1 { s[0].score as int } else { 0 }
    } else {
        let prev = best_score_sp(s, n - 1);
        if s[n - 1].score > prev { s[n - 1].score as int } else { prev }
    }
}

/// Worst raw score among the first `n` entries.
pub open spec fn worst_score_sp(s: Seq<ScoredGenome>, n: int) -> int
    decreases n,
{
    if n <= 1 {
        if n == 1 { s[0].score as int } else { 0 }
    } else {
        let prev = worst_score_sp(s, n - 1);
        if s[n - 1].score < prev { s[n - 1].score as int } else { prev }
    }
}

/// Sum of raw scores over the first `n` entries.
pub open spec fn score_sum_sp(s: Seq<ScoredGenome>, n: int) -> int
    decreases n,
{
    if n <= 0 { 0 } else { score_sum_sp(s, n - 1) + s[n - 1].score }
}

/// Sum of coherence values over the first `n` entries.
pub open spec fn coherence_sum_sp(s: Seq<ScoredGenome>, n: int) -> int
    decreases n,
{
    if n <= 0 { 0 } else { coherence_sum_sp(s, n - 1) + s[n - 1].coherence }
}

/// Sum of squared deviations from `mean` over the first `n` entries.
pub open spec fn sq_dev_sum_sp(s: Seq<ScoredGenome>, n: int, mean: int) -> int
    decreases n,
{
    if n <= 0 {
        0
    } else {
        sq_dev_sum_sp(s, n - 1, mean) + (s[n - 1].score - mean) * (s[n - 1].score - mean)
    }
}

/// A sequence of scores in non-decreasing order.
pub open spec fn sorted_asc_sp(s: Seq<i64>) -> bool {
    forall|i: int, j: int| 0 <= i < j < s.len() ==> #[trigger] s[i] <= #[trigger] s[j]
}

/// The middle of a sorted sequence: the midpoint, or the mean of the two
/// middles for an even length.
pub open spec fn median_of_sorted_sp(s: Seq<i64>) -> int {
    let n = s.len() as int;
    if n == 0 {
        0
    } else if n % 2 == 0 {
        (s[n / 2 - 1] + s[n / 2]) / 2
    } else {
        s[n / 2] as int
    }
}

/// The genomes of a scored sequence, in order.
pub open spec fn genotypes_of_sp(s: Seq<ScoredGenome>) -> Seq<Genotype> {
    s.map(|i: int, g: ScoredGenome| g.genotype)
}

/// Sort scores ascending by repeated minimum extraction.
fn sort_scores(v: &Vec<i64>) -> (s: Vec<i64>)
    ensures
        s@.len() == v@.len(),
        sorted_asc_sp(s@),
        s@.to_multiset() == v@.to_multiset(),
{
    broadcast use vstd::seq_lib::group_to_multiset_ensures;

    let mut work = crate::variation::copy_values(v);
    let mut out: Vec<i64> = Vec::new();
    while work.len() > 0
        invariant
            out@.len() + work@.len() == v@.len(),
            sorted_asc_sp(out@),
            out@.to_multiset().add(work@.to_multiset()) == v@.to_multiset(),
            forall|i: int, j: int| 0 <= i < out@.len() && 0 <= j < work@.len()
                ==> #[trigger] out@[i] <= #[trigger] work@[j],
        decreases work@.len(),
    {
        // Index of the smallest remaining score.
        let mut min_idx: usize = 0;
        let mut k: usize = 1;
        while k < work.len()
            invariant
                0 < work@.len(),
                0 <= min_idx < work@.len(),
                0 <= k <= work@.len(),
                forall|i: int| 0 <= i < k ==> work@[min_idx as int] <= #[trigger] work@[i],
            decreases work@.len() - k,
        {
            if work[k] < work[min_idx] {
                min_idx = k;
            }
            k = k + 1;
        }
        let value = work[min_idx];
        let ghost out_before = out@;
        let ghost work_before = work@;
        out.push(value);
        work.remove(min_idx);
        proof {
            vstd::seq_lib::to_multiset_build(out_before, value);
            vstd::seq_lib::to_multiset_remove(work_before, min_idx as int);
            vstd::seq_lib::to_multiset_contains(work_before, value);
            assert(out@ == out_before.push(value));
            assert(work@ == work_before.remove(min_idx as int));
            assert(work_before.to_multiset().count(value) > 0) by {
                assert(work_before.contains(value));
            }
            assert_multisets_equal!(out@.to_multiset().add(work@.to_multiset()), v@.to_multiset());
        }
    }
    out
}

/// Snapshot the epoch's population statistics: best, worst, mean, median and
/// spread of the raw scores, mean coherence, improvement over the previous
/// epoch's best, and genetic diversity.
pub fn calculate_epoch_stats(
    scored: &Vec<ScoredGenome>,
    previous: Option<&EpochStats>,
) -> (r: EpochStats)
    requires
        uniform_scored_sp(scored@),
        scored@.len() <= MAX_POPULATION,
        (previous is Some) ==> -MAX_SCORE <= previous->0.best_score <= MAX_SCORE,
    ensures
        scored@.len() == 0 ==> r == (EpochStats {
            best_score: 0,
            worst_score: 0,
            average_score: 0,
            median_score: 0,
            std_deviation: 0,
            improvement: 0,
            average_coherence: 0,
            diversity_index: 0,
        }),
        scored@.len() > 0 ==> ({
            let n = scored@.len() as int;
            &&& r.best_score == best_score_sp(scored@, n)
            &&& r.worst_score == worst_score_sp(scored@, n)
            &&& r.average_score == score_sum_sp(scored@, n) / n
            &&& r.average_coherence == coherence_sum_sp(scored@, n) / n
            &&& r.std_deviation == isqrt_sp(sq_dev_sum_sp(scored@, n, r.average_score as int) / n)
            &&& r.improvement == (if previous is Some {
                r.best_score - previous->0.best_score
            } else {
                0
            })
            &&& r.diversity_index == diversity_sp(genotypes_of_sp(scored@))
            &&& (exists|sq: Seq<i64>| {
                &&& sq.to_multiset() == scored@.map(|i: int, g: ScoredGenome| g.score).to_multiset()
                &&& sorted_asc_sp(sq)
                &&& sq.len() == scored@.len()
                &&& r.median_score == median_of_sorted_sp(sq)
            })
            &&& worst_score_sp(scored@, n) <= r.best_score
            &&& 0 <= r.std_deviation <= 2 * MAX_SCORE
        }),
{
    let n = scored.len();
    if n == 0 {
        return EpochStats {
            best_score: 0,
            worst_score: 0,
            average_score: 0,
            median_score: 0,
            std_deviation: 0,
            improvement: 0,
            average_coherence: 0,
            diversity_index: 0,
        };
    }

    // Best, worst, sums.
    let mut best: i64 = scored[0].score;
    let mut worst: i64 = scored[0].score;
    let mut score_sum: i64 = 0;
    let mut coherence_sum: i64 = 0;
    let mut scores: Vec<i64> = Vec::new();
    let mut i: usize = 0;
    while i < n
        invariant
            uniform_scored_sp(scored@),
            n == scored@.len() <= MAX_POPULATION,
            n > 0,
            0 <= i <= n,
            best == (if i == 0 { scored@[0].score as int } else { best_score_sp(scored@, i as int) }),
            worst == (if i == 0 { scored@[0].score as int } else { worst_score_sp(scored@, i as int) }),
            score_sum == score_sum_sp(scored@, i as int),
            coherence_sum == coherence_sum_sp(scored@, i as int),
            0 <= score_sum <= i * MAX_SCORE,
            0 <= coherence_sum <= i * 1000,
            0 <= best <= MAX_SCORE,
            0 <= worst <= MAX_SCORE,
            scores@.len() == i,
            scores@ == scored@.map(|k: int, g: ScoredGenome| g.score).subrange(0, i as int),
        decreases n - i,
    {
        let s = scored[i].score;
        if s > best {
            best = s;
        }
        if s < worst {
            worst = s;
        }
        proof {
            assert((i as int + 1) * MAX_SCORE == i as int * MAX_SCORE + MAX_SCORE)
                by (nonlinear_arith);
            assert((i as int + 1) * 1000 == i as int * 1000 + 1000) by (nonlinear_arith);
            assert(i as int * MAX_SCORE <= 10_000 * MAX_SCORE) by (nonlinear_arith)
                requires 0 <= i as int <= 10_000;
        }
        score_sum = score_sum + s;
        coherence_sum = coherence_sum + scored[i].coherence;
        scores.push(s);
        proof {
            assert(scores@ =~= scored@.map(|k: int, g: ScoredGenome| g.score)
                .subrange(0, i + 1));
        }
        i = i + 1;
    }
    proof {
        assert(scores@ =~= scored@.map(|k: int, g: ScoredGenome| g.score));
        vstd::arithmetic::div_mod::lemma_div_is_ordered(0, score_sum as int, n as int);
        vstd::arithmetic::div_mod::lemma_div_is_ordered(
            score_sum as int, n as int * MAX_SCORE, n as int);
        vstd::arithmetic::div_mod::lemma_div_multiples_vanish(MAX_SCORE as int, n as int);
        assert(n as int * MAX_SCORE == MAX_SCORE * n as int) by (nonlinear_arith);
        vstd::arithmetic::div_mod::lemma_div_is_ordered(0, coherence_sum as int, n as int);
    }
    let average: i64 = score_sum / n as i64;
    let average_coherence: i64 = coherence_sum / n as i64;

    // Median from the sorted scores.
    let sorted = sort_scores(&scores);
    proof {
        broadcast use vstd::seq_lib::group_to_multiset_ensures;
        assert(sorted@.len() == n);
    }
    let median: i64 = if n % 2 == 0 {
        let a = sorted[n / 2 - 1];
        let b = sorted[n / 2];
        proof {
            vstd::seq_lib::to_multiset_contains(sorted@, a);
            vstd::seq_lib::to_multiset_contains(scores@, a);
            vstd::seq_lib::to_multiset_contains(sorted@, b);
            vstd::seq_lib::to_multiset_contains(scores@, b);
            assert(scores@.contains(a) && scores@.contains(b));
            let ia = choose|i: int| 0 <= i < scores@.len() && scores@[i] == a;
            let ib = choose|i: int| 0 <= i < scores@.len() && scores@[i] == b;
            assert(0 <= a <= MAX_SCORE && 0 <= b <= MAX_SCORE);
        }
        (a + b) / 2
    } else {
        sorted[n / 2]
    };

    // Standard deviation of the raw scores.
    let mut dev_sum: u128 = 0;
    let mut j: usize = 0;
    while j < n
        invariant
            uniform_scored_sp(scored@),
            n == scored@.len() <= MAX_POPULATION,
            0 <= j <= n,
            0 <= average <= MAX_SCORE,
            dev_sum as int == sq_dev_sum_sp(scored@, j as int, average as int),
            dev_sum as int <= j * (4 * MAX_SCORE * MAX_SCORE),
        decreases n - j,
    {
        let s = scored[j].score;
        let d = abs_i64(s - average);
        proof {
            let di = (s - average) as int;
            assert(d * d == di * di) by (nonlinear_arith)
                requires d == abs_sp(di);
            assert(0 <= d as int * d as int <= 4 * MAX_SCORE * MAX_SCORE) by (nonlinear_arith)
                requires 0 <= d as int <= 2 * MAX_SCORE;
            assert((j as int + 1) * (4 * MAX_SCORE * MAX_SCORE)
                == j as int * (4 * MAX_SCORE * MAX_SCORE) + 4 * MAX_SCORE * MAX_SCORE)
                by (nonlinear_arith);
            assert(j as int * (4 * MAX_SCORE * MAX_SCORE)
                <= 10_000 * (4 * MAX_SCORE * MAX_SCORE)) by (nonlinear_arith)
                requires 0 <= j as int <= 10_000;
        }
        dev_sum = dev_sum + (d as u128) * (d as u128);
        j = j + 1;
    }
    proof {
        vstd::arithmetic::div_mod::lemma_div_is_ordered(
            dev_sum as int, (n as int) * (4 * MAX_SCORE * MAX_SCORE), n as int);
        assert((n as int) * (4 * MAX_SCORE * MAX_SCORE)
            == (4 * MAX_SCORE * MAX_SCORE) * (n as int)) by (nonlinear_arith);
        vstd::arithmetic::div_mod::lemma_div_multiples_vanish(
            4 * MAX_SCORE * MAX_SCORE, n as int);
        vstd::arithmetic::div_mod::lemma_div_pos_is_pos(dev_sum as int, n as int);
    }
    let variance: i64 = (dev_sum / (n as u128)) as i64;
    proof {
        assert(variance as int == sq_dev_sum_sp(scored@, n as int, average as int) / (n as int));
        crate::fixed::lemma_isqrt_bounds(variance as int);
        if isqrt_sp(variance as int) > 2 * MAX_SCORE {
            crate::fixed::lemma_square_monotone(2 * MAX_SCORE + 1, isqrt_sp(variance as int));
            assert((2 * MAX_SCORE + 1) * (2 * MAX_SCORE + 1) > 4 * MAX_SCORE * MAX_SCORE)
                by (nonlinear_arith);
            assert(false);
        }
    }
    let std_deviation = isqrt(variance);

    // Improvement over the previous epoch's best.
    let improvement: i64 = match previous {
        Some(prev) => best - prev.best_score,
        None => 0,
    };

    // Genetic diversity over the genomes.
    let mut genomes: Vec<Genotype> = Vec::new();
    let mut g: usize = 0;
    while g < n
        invariant
            uniform_scored_sp(scored@),
            n == scored@.len() <= MAX_POPULATION,
            0 <= g <= n,
            genomes@.len() == g,
            forall|k: int| 0 <= k < g ==> {
                &&& (#[trigger] genomes@[k]).force_matrix@ == scored@[k].genotype.force_matrix@
                &&& genomes@[k].food_forces@ == scored@[k].genotype.food_forces@
                &&& genomes@[k].type_count == scored@[k].genotype.type_count
                &&& genomes@[k].fitness_history@ == scored@[k].genotype.fitness_history@
                &&& genomes@[k].strategy_coherence == scored@[k].genotype.strategy_coherence
            },
        decreases n - g,
    {
        genomes.push(clone_genotype(&scored[g].genotype));
        g = g + 1;
    }
    proof {
        assert(crate::coherence::genomes_data_eq_sp(genomes@, genotypes_of_sp(scored@)));
        crate::coherence::lemma_diversity_same_data(genomes@, genotypes_of_sp(scored@));
        assert(uniform_genomes_sp(genomes@));
    }
    let diversity_index = calculate_population_diversity(&genomes);

    let r = EpochStats {
        best_score: best,
        worst_score: worst,
        average_score: average,
        median_score: median,
        std_deviation,
        improvement,
        average_coherence,
        diversity_index,
    };
    proof {
        lemma_best_worst_order(scored@, n as int);
        assert(exists|sq: Seq<i64>| {
            &&& sq.to_multiset() == scored@.map(|i: int, g2: ScoredGenome| g2.score).to_multiset()
            &&& sorted_asc_sp(sq)
            &&& sq.len() == scored@.len()
            &&& r.median_score == median_of_sorted_sp(sq)
        }) by {
            assert({
                &&& sorted@.to_multiset()
                    == scored@.map(|i: int, g2: ScoredGenome| g2.score).to_multiset()
                &&& sorted_asc_sp(sorted@)
                &&& sorted@.len() == scored@.len()
                &&& r.median_score == median_of_sorted_sp(sorted@)
            });
        }
    }
    r
}

/// The worst prefix score never exceeds the best.
proof fn lemma_best_worst_order(s: Seq<ScoredGenome>, n: int)
    requires
        1 <= n <= s.len(),
    ensures
        worst_score_sp(s, n) <= best_score_sp(s, n),
    decreases n,
{
    if n > 1 {
        lemma_best_worst_order(s, n - 1);
    }
}


// ---------------------------------------------------------------------------
// Selecting: ranking and tournament selection.

/// Two scored genomes carry the same data, field for field.
pub open spec fn scored_data_eq_sp(a: ScoredGenome, b: ScoredGenome) -> bool {
    &&& a.genotype.force_matrix@ == b.genotype.force_matrix@
    &&& a.genotype.food_forces@ == b.genotype.food_forces@
    &&& a.genotype.type_count == b.genotype.type_count
    &&& a.genotype.fitness_history@ == b.genotype.fitness_history@
    &&& a.genotype.strategy_coherence == b.genotype.strategy_coherence
    &&& a.score == b.score
    &&& a.generation == b.generation
    &&& a.coherence == b.coherence
    &&& a.fitness_trend == b.fitness_trend
}

/// The sequence is ordered by non-increasing combined fitness.
pub open spec fn ranked_by_fitness_sp(s: Seq<ScoredGenome>, stats: EpochStats,
    cfg: GeneticConfig) -> bool {
    forall|i: int, j: int| 0 <= i < j < s.len()
        ==> combined_fitness_sp(#[trigger] s[i], stats, cfg)
            >= combined_fitness_sp(#[trigger] s[j], stats, cfg)
}

/// Copy one scored genome field by field.
fn clone_scored(g: &ScoredGenome) -> (c: ScoredGenome)
    ensures
        scored_data_eq_sp(c, *g),
{
    ScoredGenome {
        genotype: clone_genotype(&g.genotype),
        score: g.score,
        generation: g.generation,
        coherence: g.coherence,
        fitness_trend: g.fitness_trend,
    }
}

/// Snapshot every population's genome and score for the epoch's evolution
/// step: the score is appended to the genome's fitness history, and the
/// cached coherence and trend are read off.
pub fn collect_and_evaluate_genomes(
    genomes: &Vec<Genotype>,
    scores: &Vec<i64>,
    current_epoch: u64,
) -> (r: Vec<ScoredGenome>)
    requires
        uniform_genomes_sp(genomes@),
        genomes@.len() == scores@.len(),
        forall|i: int| 0 <= i < scores@.len() ==> 0 <= #[trigger] scores@[i] <= MAX_SCORE,
    ensures
        r@.len() == genomes@.len(),
        uniform_scored_sp(r@),
        forall|i: int| 0 <= i < r@.len() ==> {
            &&& (#[trigger] r@[i]).score == scores@[i]
            &&& r@[i].generation == current_epoch
            &&& r@[i].coherence == genomes@[i].strategy_coherence
            &&& r@[i].genotype.force_matrix@ == genomes@[i].force_matrix@
            &&& r@[i].genotype.food_forces@ == genomes@[i].food_forces@
            &&& r@[i].genotype.type_count == genomes@[i].type_count
            &&& r@[i].fitness_trend == fitness_trend_sp(r@[i].genotype)
        },
{
    let n = genomes.len();
    let mut r: Vec<ScoredGenome> = Vec::new();
    let mut i: usize = 0;
    while i < n
        invariant
            uniform_genomes_sp(genomes@),
            n == genomes@.len() == scores@.len(),
            forall|k: int| 0 <= k < scores@.len() ==> 0 <= #[trigger] scores@[k] <= MAX_SCORE,
            0 <= i <= n,
            r@.len() == i,
            forall|k: int| 0 <= k < i ==> {
                &&& (#[trigger] r@[k]).wf()
                &&& r@[k].score == scores@[k]
                &&& r@[k].generation == current_epoch
                &&& r@[k].coherence == genomes@[k].strategy_coherence
                &&& r@[k].genotype.force_matrix@ == genomes@[k].force_matrix@
                &&& r@[k].genotype.food_forces@ == genomes@[k].food_forces@
                &&& r@[k].genotype.type_count == genomes@[k].type_count
                &&& r@[k].fitness_trend == fitness_trend_sp(r@[k].genotype)
            },
        decreases n - i,
    {
        let mut genotype = clone_genotype(&genomes[i]);
        proof {
            assert(genotype.wf());
        }
        let score = scores[i];
        genotype.update_fitness_history(score);
        let coherence = genotype.strategy_coherence;
        let fitness_trend = genotype.get_fitness_trend();
        r.push(ScoredGenome {
            genotype,
            score,
            generation: current_epoch,
            coherence,
            fitness_trend,
        });
        i = i + 1;
    }
    r
}

/// Sort the scored genomes by non-increasing combined fitness.  The second
/// result is the permutation applied: entry `i` of the ranking carries the
/// data of input entry `perm[i]`.
pub fn rank_genomes(
    scored: &Vec<ScoredGenome>,
    stats: &EpochStats,
    config: &GeneticConfig,
) -> (r: (Vec<ScoredGenome>, Vec<usize>))
    requires
        uniform_scored_sp(scored@),
        config.wf(),
        -MAX_SCORE <= stats.worst_score <= MAX_SCORE,
        -MAX_SCORE <= stats.best_score <= MAX_SCORE,
    ensures
        r.0@.len() == scored@.len(),
        r.1@.len() == scored@.len(),
        ranked_by_fitness_sp(r.0@, *stats, *config),
        uniform_scored_sp(r.0@),
        forall|i: int| 0 <= i < r.1@.len() ==> #[trigger] r.1@[i] < scored@.len(),
        forall|i: int, j: int| 0 <= i < j < r.1@.len() ==> r.1@[i] != r.1@[j],
        forall|i: int| 0 <= i < r.0@.len()
            ==> scored_data_eq_sp(#[trigger] r.0@[i], scored@[r.1@[i] as int]),
{
    let n = scored.len();

    // Combined fitness of every entry, and the identity permutation.
    let mut keys: Vec<i64> = Vec::new();
    let mut perm: Vec<usize> = Vec::new();
    let mut i: usize = 0;
    while i < n
        invariant
            uniform_scored_sp(scored@),
            config.wf(),
            -MAX_SCORE <= stats.worst_score <= MAX_SCORE,
            -MAX_SCORE <= stats.best_score <= MAX_SCORE,
            n == scored@.len(),
            0 <= i <= n,
            keys@.len() == i,
            perm@.len() == i,
            forall|k: int| 0 <= k < i ==> #[trigger] perm@[k] == k,
            forall|k: int| 0 <= k < i
                ==> #[trigger] keys@[k] == combined_fitness_sp(scored@[k], *stats, *config),
        decreases n - i,
    {
        keys.push(calculate_combined_fitness(&scored[i], stats, config));
        perm.push(i);
        i = i + 1;
    }

    // Selection sort, descending by key, moving keys and indices together.
    let mut a: usize = 0;
    while a < n
        invariant
            uniform_scored_sp(scored@),
            n == scored@.len(),
            0 <= a <= n,
            keys@.len() == n,
            perm@.len() == n,
            forall|k: int| 0 <= k < n ==> #[trigger] perm@[k] < n,
            forall|k: int, l: int| 0 <= k < l < n ==> perm@[k] != perm@[l],
            forall|k: int| 0 <= k < n
                ==> #[trigger] keys@[k]
                    == combined_fitness_sp(scored@[perm@[k] as int], *stats, *config),
            forall|k: int, l: int| 0 <= k < l < a ==> #[trigger] keys@[k] >= #[trigger] keys@[l],
            forall|k: int, l: int| 0 <= k < a && a <= l < n
                ==> #[trigger] keys@[k] >= #[trigger] keys@[l],
        decreases n - a,
    {
        let mut max_idx: usize = a;
        let mut b: usize = a + 1;
        while b < n
            invariant
                keys@.len() == n,
                0 <= a <= n,
                a <= max_idx < n,
                a < b <= n || (a + 1 > n && b == a + 1),
                a + 1 <= b,
                b <= n,
                forall|k: int| a <= k < b ==> keys@[max_idx as int] >= #[trigger] keys@[k],
            decreases n - b,
        {
            if keys[b] > keys[max_idx] {
                max_idx = b;
            }
            b = b + 1;
        }
        let tmp_key = keys[a];
        let tmp_idx = perm[a];
        let key_m = keys[max_idx];
        let idx_m = perm[max_idx];
        keys[a] = key_m;
        perm[a] = idx_m;
        keys[max_idx] = tmp_key;
        perm[max_idx] = tmp_idx;
        a = a + 1;
    }

    // Materialize the ranked list.
    let mut ranked: Vec<ScoredGenome> = Vec::new();
    let mut c: usize = 0;
    while c < n
        invariant
            uniform_scored_sp(scored@),
            n == scored@.len(),
            0 <= c <= n,
            keys@.len() == n,
            perm@.len() == n,
            forall|k: int| 0 <= k < n ==> #[trigger] perm@[k] < n,
            forall|k: int| 0 <= k < n
                ==> #[trigger] keys@[k]
                    == combined_fitness_sp(scored@[perm@[k] as int], *stats, *config),
            forall|k: int, l: int| 0 <= k < l < n ==> #[trigger] keys@[k] >= #[trigger] keys@[l],
            ranked@.len() == c,
            forall|k: int| 0 <= k < c
                ==> scored_data_eq_sp(#[trigger] ranked@[k], scored@[perm@[k] as int]),
        decreases n - c,
    {
        let idx = perm[c];
        ranked.push(clone_scored(&scored[idx]));
        c = c + 1;
    }
    proof {
        assert forall|i2: int, j2: int| 0 <= i2 < j2 < ranked@.len() implies
            combined_fitness_sp(#[trigger] ranked@[i2], *stats, *config)
                >= combined_fitness_sp(#[trigger] ranked@[j2], *stats, *config) by {
            assert(keys@[i2] >= keys@[j2]);
        }
        assert forall|i2: int| 0 <= i2 < ranked@.len() implies
            (#[trigger] ranked@[i2]).wf()
                && ranked@[i2].genotype.type_count == ranked@[0].genotype.type_count by {
            assert(scored_data_eq_sp(ranked@[i2], scored@[perm@[i2] as int]));
            assert(scored@[perm@[i2] as int].wf());
            assert(scored_data_eq_sp(ranked@[0], scored@[perm@[0] as int]));
        }
    }
    (ranked, perm)
}

/// Pick one parent genome by a small weighted tournament: a handful of
/// candidates are drawn with weight growing with rank and coherence above the
/// threshold, and the best of them by combined fitness wins.
pub fn enhanced_tournament_selection(
    population: &Vec<ScoredGenome>,
    config: &GeneticConfig,
    rng: &mut rand::rngs::StdRng,
) -> (g: Genotype)
    requires
        uniform_scored_sp(population@),
        1 <= population@.len() <= MAX_POPULATION,
        config.wf(),
    ensures
        g.wf(),
        g.type_count == population@[0].genotype.type_count,
        exists|i: int| 0 <= i < population@.len()
            && genome_data_eq_sp(g, (#[trigger] population@[i]).genotype),
{
    let n = population.len();

    // Selection weights by rank and coherence.
    let mut weights: Vec<i64> = Vec::new();
    let mut total: i64 = 0;
    let mut i: usize = 0;
    while i < n
        invariant
            uniform_scored_sp(population@),
            1 <= n == population@.len() <= MAX_POPULATION,
            config.wf(),
            0 <= i <= n,
            weights@.len() == i,
            forall|k: int| 0 <= k < i ==> 1 <= #[trigger] weights@[k] <= 2200,
            0 <= total <= i * 2200,
            i >= 1 ==> total >= 1,
        decreases n - i,
    {
        proof {
            assert(population@[i as int].wf());
            vstd::arithmetic::div_mod::lemma_div_is_ordered_by_denominator(
                1_000_000, 1000, 1000 + 100 * (i as int));
            vstd::arithmetic::div_mod::lemma_div_pos_is_pos(
                1_000_000, 1000 + 100 * (i as int));
        }
        let rank_weight: i64 = 1_000_000 / (1000 + 100 * (i as i64));
        let above = population[i].coherence - config.coherence_threshold;
        let coherence_weight: i64 = if above > 0 { above + 100 } else { 100 };
        proof {
            assert(0 <= rank_weight * coherence_weight <= 1000 * 1100) by (nonlinear_arith)
                requires 0 <= rank_weight <= 1000, 0 <= coherence_weight <= 1100;
            vstd::arithmetic::div_mod::lemma_div_is_ordered(
                rank_weight * coherence_weight, 1_100_000int, 1000);
            vstd::arithmetic::div_mod::lemma_div_pos_is_pos(
                rank_weight * coherence_weight, 1000);
            assert((i as int + 1) * 2200 == i as int * 2200 + 2200) by (nonlinear_arith);
            assert(i as int * 2200 <= 10_000 * 2200) by (nonlinear_arith)
                requires 0 <= i as int <= 10_000;
        }
        let w_raw = rank_weight * coherence_weight / 1000;
        let w = if w_raw < 1 { 1 } else { w_raw };
        weights.push(w);
        total = total + w;
        i = i + 1;
    }

    // Draw the tournament members.
    let mut best_idx: usize = 0;
    let mut best_key: i64 = -1;
    let default_stats = EpochStats::default();
    let mut round: usize = 0;
    while round < 4
        invariant
            uniform_scored_sp(population@),
            1 <= n == population@.len() <= MAX_POPULATION,
            config.wf(),
            weights@.len() == n,
            forall|k: int| 0 <= k < n ==> 1 <= #[trigger] weights@[k] <= 2200,
            1 <= total <= n * 2200,
            0 <= best_idx < n,
            default_stats.best_score == 0 && default_stats.worst_score == 0,
            0 <= round <= 4,
        decreases 4 - round,
    {
        let mut pick = draw_in_range(rng, 0, total - 1);
        let mut chosen: usize = n - 1;
        let mut j: usize = 0;
        while j < n
            invariant
                weights@.len() == n,
                1 <= n,
                0 <= j <= n,
                0 <= chosen < n,
                0 <= pick,
                forall|k: int| 0 <= k < n ==> 1 <= #[trigger] weights@[k] <= 2200,
            decreases n - j,
        {
            let w = weights[j];
            if pick < w {
                chosen = j;
                break;
            }
            pick = pick - w;
            j = j + 1;
        }
        let key = calculate_combined_fitness(&population[chosen], &default_stats, config);
        if key > best_key {
            best_key = key;
            best_idx = chosen;
        }
        round = round + 1;
    }
    let winner = clone_genotype(&population[best_idx].genotype);
    proof {
        assert(population@[best_idx as int].wf());
        assert(genome_data_eq_sp(winner, population@[best_idx as int].genotype));
    }
    winner
}

// ---------------------------------------------------------------------------
// Reproducing: adaptive mutation and the next generation.

/// The adaptive mutation rate: the base rate scaled up when diversity is low,
/// when the best score stagnates and for incoherent genomes, scaled down in
/// the opposite cases, clamped into `[10, 500]` milli.
pub open spec fn adaptive_rate_sp(stats: EpochStats, base_rate: int, coherence: int) -> int {
    let df: int = if stats.diversity_index < 300 { 2000 }
        else if stats.diversity_index > 800 { 700 } else { 1000 };
    let sf: int = if stats.improvement <= 0 { 1500 }
        else if stats.improvement > 10_000 { 800 } else { 1000 };
    let cf: int = if coherence > 800 { 500 } else if coherence < 400 { 1800 } else { 1000 };
    clamp_sp(base_rate * df / 1000 * sf / 1000 * cf / 1000, 10, 500)
}

/// Compute the adaptive mutation rate for one offspring.
pub fn calculate_adaptive_mutation_rate(
    stats: &EpochStats,
    base_rate: i64,
    genome_coherence: i64,
) -> (r: i64)
    requires
        0 <= base_rate <= 1000,
    ensures
        r == adaptive_rate_sp(*stats, base_rate as int, genome_coherence as int),
        10 <= r <= 500,
{
    let df: i64 = if stats.diversity_index < 300 { 2000 }
        else if stats.diversity_index > 800 { 700 } else { 1000 };
    let sf: i64 = if stats.improvement <= 0 { 1500 }
        else if stats.improvement > 10_000 { 800 } else { 1000 };
    let cf: i64 = if genome_coherence > 800 { 500 }
        else if genome_coherence < 400 { 1800 } else { 1000 };
    proof {
        assert(0 <= base_rate * df <= 2_000_000) by (nonlinear_arith)
            requires 0 <= base_rate <= 1000, 700 <= df <= 2000;
        vstd::arithmetic::div_mod::lemma_div_is_ordered(base_rate * df, 2_000_000, 1000);
        vstd::arithmetic::div_mod::lemma_div_pos_is_pos(base_rate * df, 1000);
        assert(0 <= base_rate * df / 1000 * sf <= 2000 * 1500) by (nonlinear_arith)
            requires 0 <= base_rate * df / 1000 <= 2000, 800 <= sf <= 1500;
        vstd::arithmetic::div_mod::lemma_div_is_ordered(
            base_rate * df / 1000 * sf, 3_000_000int, 1000);
        vstd::arithmetic::div_mod::lemma_div_pos_is_pos(base_rate * df / 1000 * sf, 1000);
        assert(0 <= base_rate * df / 1000 * sf / 1000 * cf <= 3000 * 1800) by (nonlinear_arith)
            requires 0 <= base_rate * df / 1000 * sf / 1000 <= 3000, 500 <= cf <= 1800;
    }
    clamp_i64(base_rate * df / 1000 * sf / 1000 * cf / 1000, 10, 500)
}

/// The number of elites: at least one, at most what is available, covering
/// the elite share of the target (rounded up).
pub open spec fn elite_count_sp(target: int, elite_ratio: int, avail: int) -> int {
    let c = (target * elite_ratio + 999) / 1000;
    let c1 = if c < 1 { 1 } else { c };
    if c1 > avail { avail } else { c1 }
}

/// The child differs from the parent by at most one light mutation step per
/// entry.
pub open spec fn lightly_mutated_sp(child: Genotype, parent: Genotype) -> bool {
    &&& child.type_count == parent.type_count
    &&& child.force_matrix@.len() == parent.force_matrix@.len()
    &&& child.food_forces@.len() == parent.food_forces@.len()
    &&& forall|k: int| 0 <= k < child.force_matrix@.len()
        ==> abs_sp(#[trigger] child.force_matrix@[k] - parent.force_matrix@[k]) <= 200
    &&& forall|k: int| 0 <= k < child.food_forces@.len()
        ==> abs_sp(#[trigger] child.food_forces@[k] - parent.food_forces@[k]) <= 200
}

/// Breed the next generation from the population, expected in ranked order
/// (as `rank_genomes` produces) so that the preserved head really is the top
/// of the generation.
///
/// The output has exactly `target_size` genomes.  The first
/// `elite_count_sp(..)` of them are the top-ranked genomes carried over
/// verbatim up to one very light mutation step; the remaining slots are
/// filled by tournament selection with crossover or cloning, adaptively
/// mutated, with incoherent results replaced by fresh random genomes, and a
/// slice of the non-elites re-randomized when diversity has collapsed.
pub fn generate_improved_population(
    ranked: &Vec<ScoredGenome>,
    target_size: usize,
    config: &GeneticConfig,
    stats: &EpochStats,
    rng: &mut rand::rngs::StdRng,
) -> (out: Vec<Genotype>)
    requires
        uniform_scored_sp(ranked@),
        1 <= ranked@.len() <= MAX_POPULATION,
        1 <= target_size <= MAX_POPULATION,
        config.wf(),
    ensures
        out@.len() == target_size,
        forall|i: int| 0 <= i < out@.len() ==> (#[trigger] out@[i]).wf(),
        forall|i: int| 0 <= i < out@.len()
            ==> (#[trigger] out@[i]).type_count == ranked@[0].genotype.type_count,
        forall|i: int| 0 <= i < out@.len()
            ==> (#[trigger] out@[i]).strategy_coherence == coherence_sp(out@[i]),
        forall|i: int|
            0 <= i < elite_count_sp(target_size as int, config.elite_ratio as int,
                ranked@.len() as int)
            ==> lightly_mutated_sp(#[trigger] out@[i], ranked@[i].genotype),
{
    let n = ranked.len();
    let tc = ranked[0].genotype.type_count;
    proof {
        assert(ranked@[0].wf());
    }

    // Elitism: the best genomes survive, with a very light mutation.
    proof {
        assert(target_size as int * config.elite_ratio as int
            <= 10_000 * 1000) by (nonlinear_arith)
            requires 0 <= target_size as int <= 10_000, 0 <= config.elite_ratio as int <= 1000;
        vstd::arithmetic::div_mod::lemma_div_is_ordered(
            target_size as int * config.elite_ratio as int + 999, 10_000_999, 1000);
        vstd::arithmetic::div_mod::lemma_div_pos_is_pos(
            target_size as int * config.elite_ratio as int + 999, 1000);
    }
    let raw: i64 = ((target_size as i64) * config.elite_ratio + 999) / 1000;
    let c1: i64 = if raw < 1 { 1 } else { raw };
    let elite_count: usize = if c1 > n as i64 { n } else { c1 as usize };
    proof {
        assert(elite_count as int
            == elite_count_sp(target_size as int, config.elite_ratio as int, n as int));
        let t = target_size as int;
        assert(t * config.elite_ratio <= t * 1000) by (nonlinear_arith)
            requires 0 <= config.elite_ratio <= 1000, t >= 0;
        vstd::arithmetic::div_mod::lemma_div_is_ordered(
            t * config.elite_ratio + 999, t * 1000 + 999, 1000);
        vstd::arithmetic::div_mod::lemma_fundamental_div_mod_converse(
            t * 1000 + 999, 1000, t, 999);
        assert(raw <= t);
        assert(elite_count <= target_size);
    }
    let light_rate = config.mutation_rate / 10;

    let mut out: Vec<Genotype> = Vec::new();
    let mut i: usize = 0;
    while i < elite_count && i < target_size
        invariant
            uniform_scored_sp(ranked@),
            1 <= n == ranked@.len() <= MAX_POPULATION,
            tc == ranked@[0].genotype.type_count,
            elite_count <= n,
            0 <= light_rate <= 100,
            0 <= i <= elite_count,
            i <= target_size,
            out@.len() == i,
            forall|k: int| 0 <= k < i ==> (#[trigger] out@[k]).wf(),
            forall|k: int| 0 <= k < i ==> (#[trigger] out@[k]).type_count == tc,
            forall|k: int| 0 <= k < i
                ==> (#[trigger] out@[k]).strategy_coherence == coherence_sp(out@[k]),
            forall|k: int| 0 <= k < i
                ==> lightly_mutated_sp(#[trigger] out@[k], ranked@[k].genotype),
        decreases elite_count - i,
    {
        let mut elite = clone_genotype(&ranked[i].genotype);
        proof {
            assert(ranked@[i as int].wf());
            assert(elite.wf());
        }
        elite.mutate(light_rate, rng);
        out.push(elite);
        i = i + 1;
    }
    let ghost elite_len = out@.len();

    // Fill the remaining slots by selective reproduction.
    while out.len() < target_size
        invariant
            uniform_scored_sp(ranked@),
            1 <= n == ranked@.len() <= MAX_POPULATION,
            config.wf(),
            tc == ranked@[0].genotype.type_count,
            1 <= tc <= MAX_TYPES,
            elite_len <= out@.len(),
            elite_len <= elite_count <= n,
            out@.len() <= target_size,
            target_size <= MAX_POPULATION,
            forall|k: int| 0 <= k < out@.len() ==> (#[trigger] out@[k]).wf(),
            forall|k: int| 0 <= k < out@.len() ==> (#[trigger] out@[k]).type_count == tc,
            forall|k: int| 0 <= k < out@.len()
                ==> (#[trigger] out@[k]).strategy_coherence == coherence_sp(out@[k]),
            forall|k: int| 0 <= k < elite_len
                ==> lightly_mutated_sp(#[trigger] out@[k], ranked@[k].genotype),
        decreases target_size - out@.len(),
    {
        let mut offspring = if draw_milli(rng) < config.crossover_rate && n >= 2 {
            let parent1 = enhanced_tournament_selection(ranked, config, rng);
            let parent2 = enhanced_tournament_selection(ranked, config, rng);
            let mut child = parent1.crossover(&parent2, rng);
            let mut attempt: usize = 0;
            while attempt < 3
                invariant
                    parent1.wf(),
                    parent2.wf(),
                    parent1.type_count == tc,
                    parent2.type_count == parent1.type_count,
                    child.wf(),
                    child.type_count == tc,
                    child.strategy_coherence == coherence_sp(child),
                    0 <= attempt <= 3,
                decreases 3 - attempt,
            {
                if child.strategy_coherence >= config.coherence_threshold {
                    break;
                }
                child = parent1.crossover(&parent2, rng);
                attempt = attempt + 1;
            }
            child
        } else {
            enhanced_tournament_selection(ranked, config, rng)
        };
        proof {
            assert(offspring.wf());
        }

        let adaptive_rate = calculate_adaptive_mutation_rate(
            stats, config.mutation_rate, offspring.strategy_coherence);
        offspring.mutate(adaptive_rate, rng);

        if offspring.strategy_coherence >= config.coherence_threshold
            || out.len() + 2 >= target_size {
            out.push(offspring);
        } else {
            // An invalid offspring is never fatal: a random genome takes its
            // place.
            out.push(Genotype::random(tc, rng));
        }
    }

    // Diversity injection: refresh a slice of the non-elites when the gene
    // pool has collapsed.
    if stats.diversity_index < 500 && out.len() > 2 {
        let injection = target_size * 100 / 1000;
        let mut d: usize = 0;
        while d < injection
            invariant
                uniform_scored_sp(ranked@),
                1 <= n == ranked@.len() <= MAX_POPULATION,
                tc == ranked@[0].genotype.type_count,
                1 <= tc <= MAX_TYPES,
                elite_len <= out@.len(),
                elite_len <= elite_count <= n,
                out@.len() == target_size,
                target_size <= MAX_POPULATION,
                0 <= d <= injection,
                forall|k: int| 0 <= k < out@.len() ==> (#[trigger] out@[k]).wf(),
                forall|k: int| 0 <= k < out@.len() ==> (#[trigger] out@[k]).type_count == tc,
                forall|k: int| 0 <= k < out@.len()
                    ==> (#[trigger] out@[k]).strategy_coherence == coherence_sp(out@[k]),
                forall|k: int| 0 <= k < elite_len
                    ==> lightly_mutated_sp(#[trigger] out@[k], ranked@[k].genotype),
            decreases injection - d,
        {
            if elite_count < out.len() {
                let span = out.len() - elite_count;
                let idx = elite_count + draw_index(rng, span);
                let fresh = Genotype::random(tc, rng);
                out[idx] = fresh;
            }
            d = d + 1;
        }
    }
    out
}

} // verus!
