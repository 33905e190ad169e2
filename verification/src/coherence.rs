//! Strategy coherence and genetic diversity scoring.
//!
//! `calculate_strategy_coherence` grades one genome on a `[0, 1000]` scale
//! (milli units of `[0, 1]`) from three ingredients: reciprocity of pairwise
//! relations (weight 0.5), balance of positive versus negative food affinities
//! (weight 0.3) and absence of positive force cycles over ordered triples
//! (weight 0.2).  `calculate_genetic_distance` is the Euclidean distance over
//! the concatenated force and food vectors, and `calculate_population_diversity`
//! the mean pairwise distance.  All are pure functions of the genome data.

use vstd::prelude::*;
use crate::fixed::{abs_sp, clamp_sp, isqrt_sp, isqrt, abs_i64, clamp_i64};
use crate::fixed::{lemma_isqrt_bounds, lemma_isqrt_unique, lemma_square_monotone};
use crate::genome::{Genotype, MAX_TYPES, lemma_row_major_index_in_range};

verus! {

/// A triple's force product (in milli^3 units) above this flags a cycle: 0.1
/// on the unit scale.
pub const CYCLE_THRESHOLD: i64 = 100_000_000;

/// No two well-formed genomes are farther apart than this (milli units).
pub const MAX_GENETIC_DISTANCE: i64 = 2_000_000;

/// Largest population the diversity scan accepts.
pub const MAX_POPULATION: usize = 10_000;

// ---------------------------------------------------------------------------
// Reciprocity over ordered pairs, indexed by k = i * type_count + j.

/// Reciprocity credit of the ordered pair coded by `k`: how close the two
/// directed forces are to cancelling, `0` on the diagonal.
pub open spec fn recip_term_sp(g: Genotype, k: int) -> int {
    let tc = g.type_count as int;
    let i = k / tc;
    let j = k % tc;
    if i == j {
        0
    } else {
        let v = 1000 - abs_sp(g.force_at(i, j) + g.force_at(j, i)) / 4;
        if v > 0 { v } else { 0 }
    }
}

/// Whether pair `k` is off the diagonal (counted as one check).
pub open spec fn recip_check_sp(g: Genotype, k: int) -> int {
    let tc = g.type_count as int;
    if k / tc == k % tc { 0 } else { 1 }
}

/// Sum of reciprocity credits over the first `n` pair codes.
pub open spec fn recip_sum_sp(g: Genotype, n: int) -> int
    decreases n,
{
    if n <= 0 { 0 } else { recip_sum_sp(g, n - 1) + recip_term_sp(g, n - 1) }
}

/// Number of off-diagonal pairs among the first `n` pair codes.
pub open spec fn recip_checks_sp(g: Genotype, n: int) -> int
    decreases n,
{
    if n <= 0 { 0 } else { recip_checks_sp(g, n - 1) + recip_check_sp(g, n - 1) }
}

// ---------------------------------------------------------------------------
// Food-force balance.

/// Number of strictly positive food affinities among the first `n`.
pub open spec fn food_pos_sp(g: Genotype, n: int) -> int
    decreases n,
{
    if n <= 0 {
        0
    } else {
        food_pos_sp(g, n - 1) + if g.food_forces@[n - 1] > 0 { 1int } else { 0int }
    }
}

/// Number of strictly negative food affinities among the first `n`.
pub open spec fn food_neg_sp(g: Genotype, n: int) -> int
    decreases n,
{
    if n <= 0 {
        0
    } else {
        food_neg_sp(g, n - 1) + if g.food_forces@[n - 1] < 0 { 1int } else { 0int }
    }
}

// ---------------------------------------------------------------------------
// Oscillation risk over ordered triples, indexed by
// t = (i * type_count + j) * type_count + k.

/// The three indices coded by `t` are pairwise distinct.
pub open spec fn triple_distinct_sp(g: Genotype, t: int) -> bool {
    let tc = g.type_count as int;
    let i = t / (tc * tc);
    let j = (t / tc) % tc;
    let k = t % tc;
    i != j && j != k && i != k
}

/// The force product around the cycle coded by `t`, in milli^3 units.
pub open spec fn cycle_product_sp(g: Genotype, t: int) -> int {
    let tc = g.type_count as int;
    let i = t / (tc * tc);
    let j = (t / tc) % tc;
    let k = t % tc;
    g.force_at(i, j) * g.force_at(j, k) * g.force_at(k, i)
}

/// Whether triple `t` is flagged as a positive cycle.
pub open spec fn cycle_flag_sp(g: Genotype, t: int) -> int {
    if triple_distinct_sp(g, t) && cycle_product_sp(g, t) > CYCLE_THRESHOLD { 1 } else { 0 }
}

/// Whether triple `t` counts as checked (pairwise distinct indices).
pub open spec fn triple_check_sp(g: Genotype, t: int) -> int {
    if triple_distinct_sp(g, t) { 1 } else { 0 }
}

/// Flagged cycles among the first `n` triple codes.
pub open spec fn cycles_sp(g: Genotype, n: int) -> int
    decreases n,
{
    if n <= 0 { 0 } else { cycles_sp(g, n - 1) + cycle_flag_sp(g, n - 1) }
}

/// Checked triples among the first `n` triple codes.
pub open spec fn triples_sp(g: Genotype, n: int) -> int
    decreases n,
{
    if n <= 0 { 0 } else { triples_sp(g, n - 1) + triple_check_sp(g, n - 1) }
}

/// The oscillation-risk score: the fraction of checked triples that are not
/// flagged, on the `[0, 1000]` scale.
pub open spec fn oscillation_sp(g: Genotype) -> int {
    let tc = g.type_count as int;
    let n = tc * tc * tc;
    let tr = triples_sp(g, n);
    if tr > 0 { 1000 - cycles_sp(g, n) * 1000 / tr } else { 1000 }
}

// ---------------------------------------------------------------------------
// The combined coherence score.

/// The strategy-coherence score of a genome, on the `[0, 1000]` scale:
/// reciprocity weighted 0.5, food balance 0.3, oscillation risk 0.2; `500`
/// when there is no off-diagonal pair to check (a single type).
pub open spec fn coherence_sp(g: Genotype) -> int {
    let tc = g.type_count as int;
    let checks = recip_checks_sp(g, tc * tc);
    if checks == 0 {
        500
    } else {
        let avg = recip_sum_sp(g, tc * tc) / checks;
        let pos = food_pos_sp(g, tc);
        let neg = food_neg_sp(g, tc);
        let bal = (if pos < neg { pos } else { neg }) * 1000 / tc;
        let osc = oscillation_sp(g);
        clamp_sp(avg * 500 / 1000 + bal * 300 / 1000 + osc * 200 / 1000, 0, 1000)
    }
}

/// The coherence score always lies in `[0, 1000]`, for every genome with the
/// length invariants, including a single-type genome.
pub proof fn lemma_coherence_bounds(g: Genotype)
    ensures
        0 <= coherence_sp(g) <= 1000,
{
}

/// Two genomes with the same forces, food affinities and type count score the
/// same coherence: the stored score and the fitness history play no part.
pub proof fn lemma_coherence_same_data(g1: Genotype, g2: Genotype)
    requires
        g1.force_matrix@ == g2.force_matrix@,
        g1.food_forces@ == g2.food_forces@,
        g1.type_count == g2.type_count,
    ensures
        coherence_sp(g1) == coherence_sp(g2),
        oscillation_sp(g1) == oscillation_sp(g2),
{
    let tc = g1.type_count as int;
    assert(forall|a: int, b: int| g1.force_at(a, b) == g2.force_at(a, b));
    lemma_recip_same_data(g1, g2, tc * tc);
    lemma_food_same_data(g1, g2, tc);
    lemma_triples_same_data(g1, g2, tc * tc * tc);
}

proof fn lemma_recip_same_data(g1: Genotype, g2: Genotype, n: int)
    requires
        g1.force_matrix@ == g2.force_matrix@,
        g1.type_count == g2.type_count,
    ensures
        recip_sum_sp(g1, n) == recip_sum_sp(g2, n),
        recip_checks_sp(g1, n) == recip_checks_sp(g2, n),
    decreases n,
{
    if n > 0 {
        lemma_recip_same_data(g1, g2, n - 1);
        assert(forall|a: int, b: int| g1.force_at(a, b) == g2.force_at(a, b));
    }
}

proof fn lemma_food_same_data(g1: Genotype, g2: Genotype, n: int)
    requires
        g1.food_forces@ == g2.food_forces@,
    ensures
        food_pos_sp(g1, n) == food_pos_sp(g2, n),
        food_neg_sp(g1, n) == food_neg_sp(g2, n),
    decreases n,
{
    if n > 0 {
        lemma_food_same_data(g1, g2, n - 1);
    }
}

proof fn lemma_triples_same_data(g1: Genotype, g2: Genotype, n: int)
    requires
        g1.force_matrix@ == g2.force_matrix@,
        g1.type_count == g2.type_count,
    ensures
        cycles_sp(g1, n) == cycles_sp(g2, n),
        triples_sp(g1, n) == triples_sp(g2, n),
    decreases n,
{
    if n > 0 {
        lemma_triples_same_data(g1, g2, n - 1);
        assert(forall|a: int, b: int| g1.force_at(a, b) == g2.force_at(a, b));
    }
}

// ---------------------------------------------------------------------------
// Genetic distance and population diversity.

/// Sum of squared differences over the first `n` entries of two sequences.
pub open spec fn diff_sq_sum_sp(s1: Seq<i64>, s2: Seq<i64>, n: int) -> int
    decreases n,
{
    if n <= 0 {
        0
    } else {
        diff_sq_sum_sp(s1, s2, n - 1) + (s1[n - 1] - s2[n - 1]) * (s1[n - 1] - s2[n - 1])
    }
}

/// Squared genetic distance: squared differences over the force matrix and
/// the food affinities together.
pub open spec fn genetic_dist_sq_sp(a: Genotype, b: Genotype) -> int {
    diff_sq_sum_sp(a.force_matrix@, b.force_matrix@, a.force_matrix@.len() as int)
        + diff_sq_sum_sp(a.food_forces@, b.food_forces@, a.food_forces@.len() as int)
}

/// The genetic distance: the integer square root of the squared distance.
pub open spec fn genetic_distance_sp(a: Genotype, b: Genotype) -> int {
    isqrt_sp(genetic_dist_sq_sp(a, b))
}

/// Partial sums of squared differences are non-negative and zero exactly when
/// the scanned prefixes agree.
pub proof fn lemma_diff_sq_sum_zero(s1: Seq<i64>, s2: Seq<i64>, n: int)
    requires
        n <= s1.len(),
        n <= s2.len(),
    ensures
        diff_sq_sum_sp(s1, s2, n) >= 0,
        diff_sq_sum_sp(s1, s2, n) == 0 <==> forall|i: int| 0 <= i < n ==> s1[i] == s2[i],
    decreases n,
{
    if n > 0 {
        lemma_diff_sq_sum_zero(s1, s2, n - 1);
        let d = s1[n - 1] - s2[n - 1];
        assert(d * d >= 0) by (nonlinear_arith);
        assert(d != 0 ==> d * d > 0) by (nonlinear_arith);
    }
}

impl Genotype {
    /// Score how internally consistent this genome's strategy is.
    ///
    /// The result is the weighted mix of reciprocity, food balance and
    /// oscillation risk described by `coherence_sp`, and always lies in
    /// `[0, 1000]`.
    pub fn calculate_strategy_coherence(&self) -> (r: i64)
        requires
            self.wf(),
        ensures
            r == coherence_sp(*self),
            0 <= r <= 1000,
    {
        proof {
            lemma_square_monotone(self.type_count as int, MAX_TYPES as int);
        }
        let tc = self.type_count;
        let pair_codes = tc * tc;

        // Reciprocity over all ordered pairs.
        let mut recip_sum: i64 = 0;
        let mut checks: i64 = 0;
        let mut k: usize = 0;
        while k < pair_codes
            invariant
                self.wf(),
                tc == self.type_count,
                pair_codes == tc * tc,
                tc * tc <= MAX_TYPES * MAX_TYPES,
                0 <= k <= pair_codes,
                recip_sum == recip_sum_sp(*self, k as int),
                checks == recip_checks_sp(*self, k as int),
                0 <= checks <= k,
                0 <= recip_sum <= 1000 * checks,
            decreases pair_codes - k,
        {
            let i = k / tc;
            let j = k % tc;
            if i != j {
                let sum = self.get_force(i, j) + self.get_force(j, i);
                let v = 1000 - abs_i64(sum) / 4;
                let credit = if v > 0 { v } else { 0 };
                recip_sum = recip_sum + credit;
                checks = checks + 1;
            }
            k = k + 1;
        }

        if checks == 0 {
            return 500;
        }

        let avg: i64 = recip_sum / checks;
        proof {
            vstd::arithmetic::div_mod::lemma_div_is_ordered(
                recip_sum as int, 1000 * checks, checks as int);
            vstd::arithmetic::div_mod::lemma_div_multiples_vanish(1000, checks as int);
        }

        // Food-force balance.
        let mut pos: i64 = 0;
        let mut neg: i64 = 0;
        let mut t: usize = 0;
        while t < tc
            invariant
                self.wf(),
                tc == self.type_count,
                0 <= t <= tc,
                pos == food_pos_sp(*self, t as int),
                neg == food_neg_sp(*self, t as int),
                0 <= pos <= t,
                0 <= neg <= t,
            decreases tc - t,
        {
            let f = self.food_forces[t];
            if f > 0 {
                pos = pos + 1;
            } else if f < 0 {
                neg = neg + 1;
            }
            t = t + 1;
        }
        let smaller = if pos < neg { pos } else { neg };
        let bal: i64 = smaller * 1000 / (tc as i64);

        // Oscillation risk over all ordered triples.
        let osc = self.check_oscillation_risk();

        clamp_i64(avg * 500 / 1000 + bal * 300 / 1000 + osc * 200 / 1000, 0, 1000)
    }

    /// The oscillation-risk part of the coherence score: the fraction of
    /// ordered triples of distinct types whose force cycle is not flagged as
    /// positive, on the `[0, 1000]` scale.
    pub fn check_oscillation_risk(&self) -> (r: i64)
        requires
            self.wf(),
        ensures
            r == oscillation_sp(*self),
            0 <= r <= 1000,
    {
        proof {
            lemma_square_monotone(self.type_count as int, MAX_TYPES as int);
        }
        let tc = self.type_count;
        let pair_codes = tc * tc;
        proof {
            assert(tc * tc * tc <= MAX_TYPES * MAX_TYPES * MAX_TYPES) by (nonlinear_arith)
                requires 0 <= tc <= MAX_TYPES;
        }
        let triple_codes = pair_codes * tc;
        let mut cycles: i64 = 0;
        let mut triples: i64 = 0;
        let mut u: usize = 0;
        while u < triple_codes
            invariant
                self.wf(),
                tc == self.type_count,
                pair_codes == tc * tc,
                triple_codes == tc * tc * tc,
                tc * tc * tc <= MAX_TYPES * MAX_TYPES * MAX_TYPES,
                0 <= u <= triple_codes,
                cycles == cycles_sp(*self, u as int),
                triples == triples_sp(*self, u as int),
                0 <= cycles <= triples <= u,
            decreases triple_codes - u,
        {
            let i = u / pair_codes;
            let j = (u / tc) % tc;
            let kk = u % tc;
            proof {
                assert(u as int / (tc as int * tc as int) == u as int / tc as int / tc as int) by {
                    vstd::arithmetic::div_mod::lemma_div_denominator(
                        u as int, tc as int, tc as int);
                }
            }
            if i != j && j != kk && i != kk {
                let f_ij = self.get_force(i, j);
                let f_jk = self.get_force(j, kk);
                let f_ki = self.get_force(kk, i);
                proof {
                    assert(-2000 * 2000 <= f_ij * f_jk <= 2000 * 2000) by (nonlinear_arith)
                        requires -2000 <= f_ij <= 2000, -2000 <= f_jk <= 2000;
                    assert(-2000 * 2000 * 2000 <= (f_ij * f_jk) * f_ki <= 2000 * 2000 * 2000)
                        by (nonlinear_arith)
                        requires -2000 * 2000 <= f_ij * f_jk <= 2000 * 2000,
                            -2000 <= f_ki <= 2000;
                }
                let product = f_ij * f_jk * f_ki;
                if product > CYCLE_THRESHOLD {
                    cycles = cycles + 1;
                }
                triples = triples + 1;
            }
            u = u + 1;
        }
        if triples > 0 {
            proof {
                vstd::arithmetic::div_mod::lemma_div_is_ordered(
                    cycles * 1000, triples * 1000, triples as int);
                vstd::arithmetic::div_mod::lemma_div_multiples_vanish(1000, triples as int);
                assert(cycles * 1000 <= triples * 1000) by (nonlinear_arith)
                    requires cycles <= triples;
                assert(cycles * 1000 >= 0) by (nonlinear_arith)
                    requires cycles >= 0;
            }
            1000 - cycles * 1000 / triples
        } else {
            1000
        }
    }
}

/// Euclidean distance between two genomes' concatenated force and food
/// vectors; `0` exactly when the two genomes agree componentwise.
pub fn calculate_genetic_distance(g1: &Genotype, g2: &Genotype) -> (r: i64)
    requires
        g1.wf(),
        g2.wf(),
        g1.type_count == g2.type_count,
    ensures
        r == genetic_distance_sp(*g1, *g2),
        0 <= r <= MAX_GENETIC_DISTANCE,
        r == 0 <==> g1.force_matrix@ == g2.force_matrix@ && g1.food_forces@ == g2.food_forces@,
{
    proof {
        lemma_square_monotone(g1.type_count as int, MAX_TYPES as int);
    }
    let mlen = g1.force_matrix.len();
    let flen = g1.food_forces.len();
    let mut sum: i64 = 0;
    let mut i: usize = 0;
    while i < mlen
        invariant
            g1.wf(),
            g2.wf(),
            g1.type_count == g2.type_count,
            mlen == g1.force_matrix@.len(),
            mlen <= MAX_TYPES * MAX_TYPES,
            0 <= i <= mlen,
            sum == diff_sq_sum_sp(g1.force_matrix@, g2.force_matrix@, i as int),
            0 <= sum <= i * 16_000_000,
        decreases mlen - i,
    {
        let d = g1.force_matrix[i] - g2.force_matrix[i];
        proof {
            assert(d * d <= 16_000_000) by (nonlinear_arith)
                requires -4000 <= d <= 4000;
            assert(d * d >= 0) by (nonlinear_arith);
            assert((i as int + 1) * 16_000_000 == i as int * 16_000_000 + 16_000_000)
                by (nonlinear_arith);
            assert(i as int * 16_000_000 <= 65536 * 16_000_000) by (nonlinear_arith)
                requires 0 <= i as int <= 65536;
        }
        sum = sum + d * d;
        i = i + 1;
    }
    let mut j: usize = 0;
    let ghost msum = sum as int;
    while j < flen
        invariant
            g1.wf(),
            g2.wf(),
            g1.type_count == g2.type_count,
            flen == g1.food_forces@.len(),
            flen <= MAX_TYPES,
            g1.force_matrix@.len() <= MAX_TYPES * MAX_TYPES,
            0 <= j <= flen,
            sum as int == msum + diff_sq_sum_sp(g1.food_forces@, g2.food_forces@, j as int),
            msum == diff_sq_sum_sp(g1.force_matrix@, g2.force_matrix@,
                g1.force_matrix@.len() as int),
            0 <= msum <= g1.force_matrix@.len() * 16_000_000,
            msum <= sum <= msum + j * 16_000_000,
        decreases flen - j,
    {
        let d = g1.food_forces[j] - g2.food_forces[j];
        proof {
            assert(d * d <= 16_000_000) by (nonlinear_arith)
                requires -4000 <= d <= 4000;
            assert(d * d >= 0) by (nonlinear_arith);
            assert((j as int + 1) * 16_000_000 == j as int * 16_000_000 + 16_000_000)
                by (nonlinear_arith);
            assert(msum <= 65536 * 16_000_000) by (nonlinear_arith)
                requires 0 <= msum <= g1.force_matrix@.len() * 16_000_000,
                    g1.force_matrix@.len() <= 65536;
            assert(j as int * 16_000_000 <= 256 * 16_000_000) by (nonlinear_arith)
                requires 0 <= j as int <= 256;
        }
        sum = sum + d * d;
        j = j + 1;
    }
    proof {
        lemma_diff_sq_sum_zero(g1.force_matrix@, g2.force_matrix@,
            g1.force_matrix@.len() as int);
        lemma_diff_sq_sum_zero(g1.food_forces@, g2.food_forces@,
            g1.food_forces@.len() as int);
        lemma_isqrt_bounds(sum as int);
        // A bounded squared distance keeps the root within MAX_GENETIC_DISTANCE.
        assert(g1.force_matrix@.len() * 16_000_000 + g1.food_forces@.len() * 16_000_000
            <= (MAX_TYPES * MAX_TYPES + MAX_TYPES) * 16_000_000) by (nonlinear_arith)
            requires
                g1.force_matrix@.len() == g1.type_count * g1.type_count,
                g1.food_forces@.len() == g1.type_count,
                1 <= g1.type_count <= MAX_TYPES;
        if isqrt_sp(sum as int) > MAX_GENETIC_DISTANCE {
            lemma_square_monotone(MAX_GENETIC_DISTANCE + 1, isqrt_sp(sum as int));
            assert(false);
        }
        if sum > 0 {
            if isqrt_sp(sum as int) == 0 {
                assert((0 + 1) * (0 + 1) > sum);
                assert(false);
            }
        }
        if g1.force_matrix@ == g2.force_matrix@ && g1.food_forces@ == g2.food_forces@ {
            assert(forall|i: int| 0 <= i < g1.force_matrix@.len()
                ==> g1.force_matrix@[i] == g2.force_matrix@[i]);
            assert(forall|i: int| 0 <= i < g1.food_forces@.len()
                ==> g1.food_forces@[i] == g2.food_forces@[i]);
        }
        if sum == 0 {
            assert(g1.force_matrix@ =~= g2.force_matrix@);
            assert(g1.food_forces@ =~= g2.food_forces@);
        }
    }
    isqrt(sum)
}

// ---------------------------------------------------------------------------
// Population diversity: mean pairwise genetic distance.

/// Distance credited to pair code `p = i * len + j`: the genetic distance for
/// `i < j`, `0` otherwise, so each unordered pair is counted once.
pub open spec fn pair_dist_term_sp(gs: Seq<Genotype>, p: int) -> int {
    let m = gs.len() as int;
    let i = p / m;
    let j = p % m;
    if i < j { genetic_distance_sp(gs[i], gs[j]) } else { 0 }
}

/// Whether pair code `p` is an unordered pair (`i < j`).
pub open spec fn pair_check_sp(gs: Seq<Genotype>, p: int) -> int {
    let m = gs.len() as int;
    if p / m < p % m { 1 } else { 0 }
}

/// Sum of pairwise distances over the first `n` pair codes.
pub open spec fn pair_dist_sum_sp(gs: Seq<Genotype>, n: int) -> int
    decreases n,
{
    if n <= 0 { 0 } else { pair_dist_sum_sp(gs, n - 1) + pair_dist_term_sp(gs, n - 1) }
}

/// Number of unordered pairs among the first `n` pair codes.
pub open spec fn pair_count_sp(gs: Seq<Genotype>, n: int) -> int
    decreases n,
{
    if n <= 0 { 0 } else { pair_count_sp(gs, n - 1) + pair_check_sp(gs, n - 1) }
}

/// Mean pairwise genetic distance; `0` for fewer than two genomes.
pub open spec fn diversity_sp(gs: Seq<Genotype>) -> int {
    let m = gs.len() as int;
    if m < 2 {
        0
    } else {
        let pairs = pair_count_sp(gs, m * m);
        if pairs > 0 { pair_dist_sum_sp(gs, m * m) / pairs } else { 0 }
    }
}

/// Two genome sequences agree pairwise on forces, food and type count.
pub open spec fn genomes_data_eq_sp(a: Seq<Genotype>, b: Seq<Genotype>) -> bool {
    &&& a.len() == b.len()
    &&& forall|i: int| 0 <= i < a.len() ==> {
        &&& (#[trigger] a[i]).force_matrix@ == (#[trigger] b[i]).force_matrix@
        &&& a[i].food_forces@ == b[i].food_forces@
        &&& a[i].type_count == b[i].type_count
    }
}

/// Diversity depends only on the genomes' forces, food and type counts.
pub proof fn lemma_diversity_same_data(a: Seq<Genotype>, b: Seq<Genotype>)
    requires
        genomes_data_eq_sp(a, b),
    ensures
        diversity_sp(a) == diversity_sp(b),
{
    let m = a.len() as int;
    lemma_pair_sums_same_data(a, b, m * m);
}

proof fn lemma_pair_sums_same_data(a: Seq<Genotype>, b: Seq<Genotype>, n: int)
    requires
        genomes_data_eq_sp(a, b),
        n <= a.len() * a.len(),
    ensures
        pair_dist_sum_sp(a, n) == pair_dist_sum_sp(b, n),
        pair_count_sp(a, n) == pair_count_sp(b, n),
    decreases n,
{
    if n > 0 {
        lemma_pair_sums_same_data(a, b, n - 1);
        let m = a.len() as int;
        crate::fixed::lemma_div_mod_square(n - 1, m);
        let i = (n - 1) / m;
        let j = (n - 1) % m;
        if i < j {
            assert(genetic_dist_sq_sp(a[i], a[j]) == genetic_dist_sq_sp(b[i], b[j]));
        }
    }
}

/// All genomes of a population are well formed with one shared type count.
pub open spec fn uniform_genomes_sp(gs: Seq<Genotype>) -> bool {
    forall|i: int| 0 <= i < gs.len()
        ==> (#[trigger] gs[i]).wf() && gs[i].type_count == gs[0].type_count
}

/// Mean pairwise genetic distance of a population, `0` for fewer than two.
pub fn calculate_population_diversity(genomes: &Vec<Genotype>) -> (r: i64)
    requires
        uniform_genomes_sp(genomes@),
        genomes@.len() <= MAX_POPULATION,
    ensures
        r == diversity_sp(genomes@),
        0 <= r <= MAX_GENETIC_DISTANCE,
{
    let m = genomes.len();
    if m < 2 {
        return 0;
    }
    proof {
        lemma_square_monotone(m as int, MAX_POPULATION as int);
    }
    let codes = m * m;
    let mut total: i64 = 0;
    let mut pairs: i64 = 0;
    let mut p: usize = 0;
    while p < codes
        invariant
            uniform_genomes_sp(genomes@),
            2 <= m == genomes@.len() <= MAX_POPULATION,
            codes == m * m,
            m * m <= MAX_POPULATION * MAX_POPULATION,
            0 <= p <= codes,
            total == pair_dist_sum_sp(genomes@, p as int),
            pairs == pair_count_sp(genomes@, p as int),
            0 <= pairs <= p,
            0 <= total <= pairs * MAX_GENETIC_DISTANCE,
        decreases codes - p,
    {
        let i = p / m;
        let j = p % m;
        proof {
            vstd::arithmetic::div_mod::lemma_fundamental_div_mod(p as int, m as int);
            assert((p as int) / (m as int) < (m as int)) by (nonlinear_arith)
                requires
                    0 <= (p as int),
                    0 < (m as int),
                    (p as int) < (m as int) * (m as int),
                    (p as int) == (m as int) * ((p as int) / (m as int)) + (p as int) % (m as int),
                    0 <= (p as int) % (m as int) < (m as int);
        }
        if i < j {
            let d = calculate_genetic_distance(&genomes[i], &genomes[j]);
            proof {
                assert((pairs + 1) * MAX_GENETIC_DISTANCE
                    == pairs * MAX_GENETIC_DISTANCE + MAX_GENETIC_DISTANCE) by (nonlinear_arith);
            }
            total = total + d;
            pairs = pairs + 1;
        }
        p = p + 1;
    }
    if pairs > 0 {
        proof {
            vstd::arithmetic::div_mod::lemma_div_is_ordered(
                total as int, pairs * MAX_GENETIC_DISTANCE, pairs as int);
            vstd::arithmetic::div_mod::lemma_div_multiples_vanish(
                MAX_GENETIC_DISTANCE as int, pairs as int);
        }
        total / pairs
    } else {
        0
    }
}

} // verus!
