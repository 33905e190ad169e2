//! Breeding: random genomes, crossover and mutation.
//!
//! Crossover picks a strategy from both parents' coherence: highly coherent
//! parents keep whole reciprocal pairs together, moderately coherent ones
//! swap whole type rows, and incoherent ones mix entry by entry starting from
//! the more coherent parent.  Mutation is adaptive: coherent genomes are
//! nudged gently, incoherent ones more strongly, and every result is clamped
//! back into the decoded force range and rescored.

use vstd::prelude::*;
use crate::fixed::{FORCE_LIMIT, abs_sp, clamp_sp, abs_i64, clamp_i64};
use crate::genome::{Genotype, MAX_TYPES, lemma_row_major_index_in_range};
use crate::coherence::coherence_sp;
use crate::rng::{draw_in_range, draw_milli, draw_bool};

verus! {

/// How the two parents' entries are combined.
#[derive(Clone, Copy, Debug, PartialEq, Eq, Structural)]
pub enum CrossoverStrategy {
    /// Each entry independently from either parent.
    Uniform,
    /// Both directions of each unordered type pair from the same parent.
    SymmetricRelations,
    /// A whole type's outgoing row (and its food affinity) from one parent.
    TypeBlocks,
    /// Start from the more coherent parent, sprinkle in the other.
    AdaptiveHybrid,
}

/// Every entry of `child` comes from the matching position of `a` or of `b`.
pub open spec fn mixed_sp(child: Seq<i64>, a: Seq<i64>, b: Seq<i64>) -> bool {
    &&& child.len() == a.len()
    &&& child.len() == b.len()
    &&& forall|i: int| 0 <= i < child.len()
        ==> #[trigger] child[i] == a[i] || child[i] == b[i]
}

/// How far one mutation step may move a value, given the genome's coherence.
pub open spec fn mutation_amplitude_sp(coherence: i64) -> int {
    if coherence > 700 { 100 } else { 200 }
}

/// The drawn value ranges of a fresh random genome: self-repulsion on the
/// diagonal (in [-1.0, -0.1]), varied forces elsewhere and food affinities in
/// [-1.0, 1.0] -- all well inside the decoded range.
pub open spec fn random_ranges_sp(g: Genotype) -> bool {
    &&& forall|a: int| 0 <= a < g.type_count ==> -1000 <= #[trigger] g.force_at(a, a) <= -100
    &&& forall|a: int, b: int| 0 <= a < g.type_count && 0 <= b < g.type_count && a != b
        ==> -1000 <= #[trigger] g.force_at(a, b) <= 1000
    &&& forall|t: int| 0 <= t < g.type_count ==> -1000 <= #[trigger] g.food_force_at(t) <= 1000
}

/// A crossover child: well formed, typed like its parents, every force and
/// food entry taken from one of them, and rescored.
pub open spec fn crossover_child_sp(child: Genotype, p1: Genotype, p2: Genotype) -> bool {
    &&& child.wf()
    &&& child.type_count == p1.type_count
    &&& mixed_sp(child.force_matrix@, p1.force_matrix@, p2.force_matrix@)
    &&& mixed_sp(child.food_forces@, p1.food_forces@, p2.food_forces@)
    &&& child.strategy_coherence == coherence_sp(child)
}

/// Copy a genome field by field (the derived clone carries no contract).
pub fn clone_genotype(g: &Genotype) -> (c: Genotype)
    ensures
        c.force_matrix@ == g.force_matrix@,
        c.food_forces@ == g.food_forces@,
        c.type_count == g.type_count,
        c.fitness_history@ == g.fitness_history@,
        c.strategy_coherence == g.strategy_coherence,
{
    Genotype {
        force_matrix: copy_values(&g.force_matrix),
        food_forces: copy_values(&g.food_forces),
        type_count: g.type_count,
        fitness_history: copy_values(&g.fitness_history),
        strategy_coherence: g.strategy_coherence,
    }
}

/// An element-for-element copy of a vector.
pub(crate) fn copy_values(v: &Vec<i64>) -> (r: Vec<i64>)
    ensures
        r@ == v@,
{
    let mut r: Vec<i64> = Vec::new();
    let mut i: usize = 0;
    while i < v.len()
        invariant
            0 <= i <= v@.len(),
            r@ == v@.subrange(0, i as int),
        decreases v@.len() - i,
    {
        r.push(v[i]);
        i = i + 1;
    }
    proof {
        assert(r@ =~= v@);
    }
    r
}

impl Genotype {
    /// A fresh random candidate: self-repulsion on the diagonal, varied
    /// forces elsewhere, all within one simulated unit.
    fn generate_candidate(type_count: usize, rng: &mut rand::rngs::StdRng) -> (g: Genotype)
        requires
            1 <= type_count <= MAX_TYPES,
        ensures
            g.wf(),
            g.type_count == type_count,
            g.fitness_history@.len() == 0,
            random_ranges_sp(g),
    {
        proof {
            crate::fixed::lemma_square_monotone(type_count as int, MAX_TYPES as int);
        }
        let matrix_size = type_count * type_count;
        let mut force_matrix: Vec<i64> = Vec::new();
        let mut k: usize = 0;
        while k < matrix_size
            invariant
                1 <= type_count <= MAX_TYPES,
                matrix_size == type_count * type_count,
                0 <= k <= matrix_size,
                force_matrix@.len() == k,
                forall|c: int| 0 <= c < k
                    ==> (#[trigger] force_matrix@[c]) == force_matrix@[c]
                        && (if c / (type_count as int) == c % (type_count as int) {
                            -1000 <= force_matrix@[c] <= -100
                        } else {
                            -1000 <= force_matrix@[c] <= 1000
                        }),
            decreases matrix_size - k,
        {
            proof {
                crate::fixed::lemma_div_mod_square(k as int, type_count as int);
            }
            let i = k / type_count;
            let j = k % type_count;
            let v = if i == j {
                // Self-repulsion keeps a type from clumping onto itself.
                draw_in_range(rng, -1000, -100)
            } else {
                draw_in_range(rng, -1000, 1000)
            };
            force_matrix.push(v);
            k = k + 1;
        }
        let mut food_forces: Vec<i64> = Vec::new();
        let mut t: usize = 0;
        while t < type_count
            invariant
                0 <= t <= type_count,
                food_forces@.len() == t,
                forall|i: int| 0 <= i < t
                    ==> -1000 <= #[trigger] food_forces@[i] <= 1000,
            decreases type_count - t,
        {
            food_forces.push(draw_in_range(rng, -1000, 1000));
            t = t + 1;
        }
        let g = Genotype {
            force_matrix,
            food_forces,
            type_count,
            fitness_history: Vec::new(),
            strategy_coherence: 1000,
        };
        proof {
            let tci = type_count as int;
            assert forall|a: int, b: int| 0 <= a < tci && 0 <= b < tci implies
                (if a == b { -1000 <= #[trigger] g.force_at(a, b) <= -100 }
                    else { -1000 <= g.force_at(a, b) <= 1000 }) by {
                lemma_row_major_index_in_range(a, b, tci);
                vstd::arithmetic::div_mod::lemma_fundamental_div_mod_converse(
                    a * tci + b, tci, a, b);
            }
        }
        g
    }

    /// The most coherent of a handful of random candidates, with its
    /// coherence stored.
    pub fn random(type_count: usize, rng: &mut rand::rngs::StdRng) -> (g: Genotype)
        requires
            1 <= type_count <= MAX_TYPES,
        ensures
            g.wf(),
            g.type_count == type_count,
            g.fitness_history@.len() == 0,
            g.strategy_coherence == coherence_sp(g),
            random_ranges_sp(g),
    {
        let mut best = Genotype::generate_candidate(type_count, rng);
        let best_coherence_0 = best.calculate_strategy_coherence();
        let ghost before = best;
        let mut best_coherence = best_coherence_0;
        best.strategy_coherence = best_coherence;
        proof {
            crate::coherence::lemma_coherence_same_data(before, best);
            assert(forall|a: int, b: int| best.force_at(a, b) == before.force_at(a, b));
            assert(forall|t: int| best.food_force_at(t) == before.food_force_at(t));
            assert(random_ranges_sp(best));
        }
        let mut round: usize = 1;
        while round < 5
            invariant
                1 <= type_count <= MAX_TYPES,
                best.wf(),
                best.type_count == type_count,
                best.fitness_history@.len() == 0,
                best_coherence == best.strategy_coherence,
                best.strategy_coherence == coherence_sp(best),
                random_ranges_sp(best),
            decreases 5 - round,
        {
            let mut candidate = Genotype::generate_candidate(type_count, rng);
            let coherence = candidate.calculate_strategy_coherence();
            if coherence > best_coherence {
                let ghost cand_before = candidate;
                candidate.strategy_coherence = coherence;
                proof {
                    crate::coherence::lemma_coherence_same_data(cand_before, candidate);
                    assert(forall|a: int, b: int|
                        candidate.force_at(a, b) == cand_before.force_at(a, b));
                    assert(forall|t: int|
                        candidate.food_force_at(t) == cand_before.food_force_at(t));
                    assert(random_ranges_sp(candidate));
                }
                best = candidate;
                best_coherence = coherence;
            }
            round = round + 1;
        }
        best
    }

    /// Mutate in place: each entry moves with the adaptive probability, by at
    /// most the coherence-dependent amplitude, and stays clamped; the
    /// coherence score is recomputed at the end.
    pub fn mutate(&mut self, mutation_rate: i64, rng: &mut rand::rngs::StdRng)
        requires
            old(self).wf(),
            0 <= mutation_rate <= 1000,
        ensures
            final(self).wf(),
            final(self).type_count == old(self).type_count,
            final(self).fitness_history@ == old(self).fitness_history@,
            final(self).force_matrix@.len() == old(self).force_matrix@.len(),
            final(self).food_forces@.len() == old(self).food_forces@.len(),
            forall|i: int| 0 <= i < old(self).force_matrix@.len()
                ==> abs_sp(#[trigger] final(self).force_matrix@[i] - old(self).force_matrix@[i])
                    <= mutation_amplitude_sp(old(self).strategy_coherence),
            forall|i: int| 0 <= i < old(self).food_forces@.len()
                ==> abs_sp(#[trigger] final(self).food_forces@[i] - old(self).food_forces@[i])
                    <= mutation_amplitude_sp(old(self).strategy_coherence),
            final(self).strategy_coherence == coherence_sp(*final(self)),
    {
        // Less mutation for an already coherent strategy.
        let stored_coherence = self.strategy_coherence;
        proof {
            assert(0 <= mutation_rate * (1500 - stored_coherence) <= 1_500_000)
                by (nonlinear_arith)
                requires
                    0 <= mutation_rate <= 1000,
                    0 <= stored_coherence <= 1000;
        }
        let effective_rate = mutation_rate * (1500 - stored_coherence) / 1000;
        let amplitude: i64 = if self.strategy_coherence > 700 { 100 } else { 200 };

        let mlen = self.force_matrix.len();
        let mut i: usize = 0;
        while i < mlen
            invariant
                old(self).wf(),
                mlen == old(self).force_matrix@.len(),
                amplitude == mutation_amplitude_sp(old(self).strategy_coherence),
                0 <= i <= mlen,
                self.force_matrix@.len() == mlen,
                self.food_forces@ == old(self).food_forces@,
                self.type_count == old(self).type_count,
                self.fitness_history@ == old(self).fitness_history@,
                self.strategy_coherence == old(self).strategy_coherence,
                forall|k: int| 0 <= k < i
                    ==> abs_sp(#[trigger] self.force_matrix@[k] - old(self).force_matrix@[k])
                        <= amplitude,
                forall|k: int| 0 <= k < i
                    ==> -FORCE_LIMIT <= #[trigger] self.force_matrix@[k] <= FORCE_LIMIT,
                forall|k: int| i <= k < mlen
                    ==> #[trigger] self.force_matrix@[k] == old(self).force_matrix@[k],
            decreases mlen - i,
        {
            if draw_milli(rng) < effective_rate {
                let old_value = self.force_matrix[i];
                let delta = draw_in_range(rng, -amplitude, amplitude);
                // More conservative steps for already strong forces.
                let change = if abs_i64(old_value) > 500 {
                    if delta >= 0 { delta / 2 } else { -((-delta) / 2) }
                } else {
                    delta
                };
                self.force_matrix[i] = clamp_i64(old_value + change, -FORCE_LIMIT, FORCE_LIMIT);
            }
            i = i + 1;
        }

        // Food affinities mutate less often.
        let food_rate = effective_rate * 300 / 1000;
        let flen = self.food_forces.len();
        let mut t: usize = 0;
        while t < flen
            invariant
                old(self).wf(),
                flen == old(self).food_forces@.len(),
                amplitude == mutation_amplitude_sp(old(self).strategy_coherence),
                0 <= t <= flen,
                self.force_matrix@.len() == old(self).force_matrix@.len(),
                self.food_forces@.len() == flen,
                self.type_count == old(self).type_count,
                self.fitness_history@ == old(self).fitness_history@,
                self.strategy_coherence == old(self).strategy_coherence,
                forall|k: int| 0 <= k < old(self).force_matrix@.len()
                    ==> abs_sp(#[trigger] self.force_matrix@[k] - old(self).force_matrix@[k])
                        <= amplitude,
                forall|k: int| 0 <= k < old(self).force_matrix@.len()
                    ==> -FORCE_LIMIT <= #[trigger] self.force_matrix@[k] <= FORCE_LIMIT,
                forall|k: int| 0 <= k < t
                    ==> abs_sp(#[trigger] self.food_forces@[k] - old(self).food_forces@[k])
                        <= amplitude,
                forall|k: int| 0 <= k < t
                    ==> -FORCE_LIMIT <= #[trigger] self.food_forces@[k] <= FORCE_LIMIT,
                forall|k: int| t <= k < flen
                    ==> #[trigger] self.food_forces@[k] == old(self).food_forces@[k],
            decreases flen - t,
        {
            if draw_milli(rng) < food_rate {
                let old_value = self.food_forces[t];
                let delta = draw_in_range(rng, -amplitude, amplitude);
                self.food_forces[t] = clamp_i64(old_value + delta, -FORCE_LIMIT, FORCE_LIMIT);
            }
            t = t + 1;
        }

        let coherence = self.calculate_strategy_coherence();
        let ghost before_score = *self;
        self.strategy_coherence = coherence;
        proof {
            crate::coherence::lemma_coherence_same_data(before_score, *self);
        }
    }

    /// Combine two parents, picking the strategy from their coherence: both
    /// very coherent keeps reciprocal pairs whole, one moderately coherent
    /// swaps type rows, otherwise the hybrid mix is used.
    pub fn crossover(&self, other: &Genotype, rng: &mut rand::rngs::StdRng) -> (child: Genotype)
        requires
            self.wf(),
            other.wf(),
            self.type_count == other.type_count,
        ensures
            crossover_child_sp(child, *self, *other),
            self.strategy_coherence > 700 && other.strategy_coherence > 700 ==> {
                &&& forall|a: int, b: int|
                    0 <= a < self.type_count && 0 <= b < self.type_count
                    ==> (#[trigger] child.force_at(a, b) == self.force_at(a, b)
                            && child.force_at(b, a) == self.force_at(b, a))
                        || (child.force_at(a, b) == other.force_at(a, b)
                            && child.force_at(b, a) == other.force_at(b, a))
                &&& (child.food_forces@ == self.food_forces@
                    || child.food_forces@ == other.food_forces@)
            },
            !(self.strategy_coherence > 700 && other.strategy_coherence > 700)
                && (self.strategy_coherence > 500 || other.strategy_coherence > 500)
                ==> forall|a: int, b: int|
                    0 <= a < self.type_count && 0 <= b < self.type_count
                    ==> (#[trigger] child.force_at(a, b) == self.force_at(a, b)
                            && child.food_force_at(a) == self.food_force_at(a))
                        || (child.force_at(a, b) == other.force_at(a, b)
                            && child.food_force_at(a) == other.food_force_at(a)),
    {
        let strategy = if self.strategy_coherence > 700 && other.strategy_coherence > 700 {
            CrossoverStrategy::SymmetricRelations
        } else if self.strategy_coherence > 500 || other.strategy_coherence > 500 {
            CrossoverStrategy::TypeBlocks
        } else {
            CrossoverStrategy::AdaptiveHybrid
        };
        match strategy {
            CrossoverStrategy::SymmetricRelations => self.symmetric_crossover(other, rng),
            CrossoverStrategy::TypeBlocks => self.type_block_crossover(other, rng),
            CrossoverStrategy::AdaptiveHybrid => self.adaptive_crossover(other, rng),
            CrossoverStrategy::Uniform => self.uniform_crossover(other, rng),
        }
    }

    /// Each force and food entry independently from either parent.
    fn uniform_crossover(&self, other: &Genotype, rng: &mut rand::rngs::StdRng) -> (child: Genotype)
        requires
            self.wf(),
            other.wf(),
            self.type_count == other.type_count,
        ensures
            crossover_child_sp(child, *self, *other),
    {
        let mlen = self.force_matrix.len();
        let mut force_matrix: Vec<i64> = Vec::new();
        let mut k: usize = 0;
        while k < mlen
            invariant
                self.wf(),
                other.wf(),
                self.type_count == other.type_count,
                mlen == self.force_matrix@.len(),
                0 <= k <= mlen,
                force_matrix@.len() == k,
                forall|i: int| 0 <= i < k
                    ==> #[trigger] force_matrix@[i] == self.force_matrix@[i]
                        || force_matrix@[i] == other.force_matrix@[i],
            decreases mlen - k,
        {
            if draw_bool(rng) {
                force_matrix.push(self.force_matrix[k]);
            } else {
                force_matrix.push(other.force_matrix[k]);
            }
            k = k + 1;
        }
        let flen = self.food_forces.len();
        let mut food_forces: Vec<i64> = Vec::new();
        let mut t: usize = 0;
        while t < flen
            invariant
                self.wf(),
                other.wf(),
                self.type_count == other.type_count,
                flen == self.food_forces@.len(),
                0 <= t <= flen,
                food_forces@.len() == t,
                forall|i: int| 0 <= i < t
                    ==> #[trigger] food_forces@[i] == self.food_forces@[i]
                        || food_forces@[i] == other.food_forces@[i],
            decreases flen - t,
        {
            if draw_bool(rng) {
                food_forces.push(self.food_forces[t]);
            } else {
                food_forces.push(other.food_forces[t]);
            }
            t = t + 1;
        }
        let mut child = Genotype {
            force_matrix,
            food_forces,
            type_count: self.type_count,
            fitness_history: Vec::new(),
            strategy_coherence: 1000,
        };
        let coherence = child.calculate_strategy_coherence();
        let ghost before_score = child;
        child.strategy_coherence = coherence;
        proof {
            crate::coherence::lemma_coherence_same_data(before_score, child);
        }
        child
    }

    /// For every unordered type pair, copy both directions of the relation
    /// from the same parent, to preserve reciprocal relationships.
    fn symmetric_crossover(&self, other: &Genotype, rng: &mut rand::rngs::StdRng)
        -> (child: Genotype)
        requires
            self.wf(),
            other.wf(),
            self.type_count == other.type_count,
        ensures
            crossover_child_sp(child, *self, *other),
            forall|a: int, b: int|
                0 <= a < self.type_count && 0 <= b < self.type_count
                ==> (#[trigger] child.force_at(a, b) == self.force_at(a, b)
                        && child.force_at(b, a) == self.force_at(b, a))
                    || (child.force_at(a, b) == other.force_at(a, b)
                        && child.force_at(b, a) == other.force_at(b, a)),
            child.food_forces@ == self.food_forces@ || child.food_forces@ == other.food_forces@,
    {
        proof {
            crate::fixed::lemma_square_monotone(self.type_count as int, MAX_TYPES as int);
        }
        let tc = self.type_count;
        let mlen = self.force_matrix.len();
        let mut force_matrix: Vec<i64> = Vec::new();
        let mut choices: Vec<bool> = Vec::new();
        let mut k: usize = 0;
        while k < mlen
            invariant
                self.wf(),
                other.wf(),
                self.type_count == other.type_count,
                tc == self.type_count,
                mlen == self.force_matrix@.len(),
                mlen == tc * tc,
                0 <= k <= mlen,
                force_matrix@.len() == k,
                choices@.len() == k,
                forall|c: int| 0 <= c < k
                    ==> #[trigger] force_matrix@[c] == (if choices@[c] {
                        self.force_matrix@[c]
                    } else {
                        other.force_matrix@[c]
                    }),
                forall|c: int| 0 <= c < k && c / (tc as int) > c % (tc as int)
                    ==> #[trigger] choices@[c]
                        == choices@[(c % (tc as int)) * (tc as int) + c / (tc as int)],
            decreases mlen - k,
        {
            proof {
                crate::fixed::lemma_div_mod_square(k as int, tc as int);
            }
            let i = k / tc;
            let j = k % tc;
            let use_parent1: bool = if i <= j {
                draw_bool(rng)
            } else {
                proof {
                    lemma_row_major_index_in_range(j as int, i as int, tc as int);
                    lemma_mirror_code_smaller(j as int, i as int, tc as int);
                }
                choices[j * tc + i]
            };
            choices.push(use_parent1);
            if use_parent1 {
                force_matrix.push(self.force_matrix[k]);
            } else {
                force_matrix.push(other.force_matrix[k]);
            }
            proof {
                let tci = tc as int;
                assert forall|c: int|
                    0 <= c < k + 1 && c / tci > c % tci implies
                    #[trigger] choices@[c] == choices@[(c % tci) * tci + c / tci] by {
                    crate::fixed::lemma_div_mod_square(c, tci);
                    lemma_row_major_index_in_range(c % tci, c / tci, tci);
                    lemma_mirror_code_smaller(c % tci, c / tci, tci);
                }
            }
            k = k + 1;
        }

        // The food affinities cross over as one block.
        let food_forces = if draw_bool(rng) {
            copy_values(&self.food_forces)
        } else {
            copy_values(&other.food_forces)
        };
        let mut child = Genotype {
            force_matrix,
            food_forces,
            type_count: tc,
            fitness_history: Vec::new(),
            strategy_coherence: 1000,
        };
        let coherence = child.calculate_strategy_coherence();
        let ghost before_score = child;
        child.strategy_coherence = coherence;
        proof {
            crate::coherence::lemma_coherence_same_data(before_score, child);
            let tci = tc as int;
            assert forall|a: int, b: int| 0 <= a < tci && 0 <= b < tci implies
                (#[trigger] child.force_at(a, b) == self.force_at(a, b)
                    && child.force_at(b, a) == self.force_at(b, a))
                || (child.force_at(a, b) == other.force_at(a, b)
                    && child.force_at(b, a) == other.force_at(b, a)) by {
                lemma_row_major_index_in_range(a, b, tci);
                lemma_row_major_index_in_range(b, a, tci);
                vstd::arithmetic::div_mod::lemma_fundamental_div_mod_converse(
                    a * tci + b, tci, a, b);
                vstd::arithmetic::div_mod::lemma_fundamental_div_mod_converse(
                    b * tci + a, tci, b, a);
                if a > b {
                    assert(choices@[a * tci + b] == choices@[b * tci + a]);
                } else if b > a {
                    assert(choices@[b * tci + a] == choices@[a * tci + b]);
                }
            }
        }
        child
    }
    /// Copy each type's whole outgoing row, and its food affinity, from one
    /// parent per type.
    fn type_block_crossover(&self, other: &Genotype, rng: &mut rand::rngs::StdRng)
        -> (child: Genotype)
        requires
            self.wf(),
            other.wf(),
            self.type_count == other.type_count,
        ensures
            crossover_child_sp(child, *self, *other),
            forall|a: int, b: int|
                0 <= a < self.type_count && 0 <= b < self.type_count
                ==> (#[trigger] child.force_at(a, b) == self.force_at(a, b)
                        && child.food_force_at(a) == self.food_force_at(a))
                    || (child.force_at(a, b) == other.force_at(a, b)
                        && child.food_force_at(a) == other.food_force_at(a)),
    {
        proof {
            crate::fixed::lemma_square_monotone(self.type_count as int, MAX_TYPES as int);
        }
        let tc = self.type_count;

        // One donor decision per type.
        let mut row_choices: Vec<bool> = Vec::new();
        let mut t: usize = 0;
        while t < tc
            invariant
                0 <= t <= tc,
                row_choices@.len() == t,
            decreases tc - t,
        {
            row_choices.push(draw_bool(rng));
            t = t + 1;
        }

        let mlen = self.force_matrix.len();
        let mut force_matrix: Vec<i64> = Vec::new();
        let mut k: usize = 0;
        while k < mlen
            invariant
                self.wf(),
                other.wf(),
                self.type_count == other.type_count,
                tc == self.type_count,
                mlen == self.force_matrix@.len(),
                mlen == tc * tc,
                row_choices@.len() == tc,
                0 <= k <= mlen,
                force_matrix@.len() == k,
                forall|c: int| 0 <= c < k
                    ==> #[trigger] force_matrix@[c] == (if row_choices@[c / (tc as int)] {
                        self.force_matrix@[c]
                    } else {
                        other.force_matrix@[c]
                    }),
            decreases mlen - k,
        {
            proof {
                crate::fixed::lemma_div_mod_square(k as int, tc as int);
            }
            let i = k / tc;
            if row_choices[i] {
                force_matrix.push(self.force_matrix[k]);
            } else {
                force_matrix.push(other.force_matrix[k]);
            }
            k = k + 1;
        }

        let mut food_forces: Vec<i64> = Vec::new();
        let mut u: usize = 0;
        while u < tc
            invariant
                self.wf(),
                other.wf(),
                self.type_count == other.type_count,
                tc == self.type_count,
                row_choices@.len() == tc,
                0 <= u <= tc,
                food_forces@.len() == u,
                forall|c: int| 0 <= c < u
                    ==> #[trigger] food_forces@[c] == (if row_choices@[c] {
                        self.food_forces@[c]
                    } else {
                        other.food_forces@[c]
                    }),
            decreases tc - u,
        {
            if row_choices[u] {
                food_forces.push(self.food_forces[u]);
            } else {
                food_forces.push(other.food_forces[u]);
            }
            u = u + 1;
        }

        let mut child = Genotype {
            force_matrix,
            food_forces,
            type_count: tc,
            fitness_history: Vec::new(),
            strategy_coherence: 1000,
        };
        let coherence = child.calculate_strategy_coherence();
        let ghost before_score = child;
        child.strategy_coherence = coherence;
        proof {
            crate::coherence::lemma_coherence_same_data(before_score, child);
            let tci = tc as int;
            assert forall|a: int, b: int|
                0 <= a < self.type_count && 0 <= b < self.type_count implies
                (#[trigger] child.force_at(a, b) == self.force_at(a, b)
                        && child.food_force_at(a) == self.food_force_at(a))
                    || (child.force_at(a, b) == other.force_at(a, b)
                        && child.food_force_at(a) == other.food_force_at(a)) by {
                lemma_row_major_index_in_range(a, b, tci);
                vstd::arithmetic::div_mod::lemma_fundamental_div_mod_converse(
                    a * tci + b, tci, a, b);
                assert(child.force_at(a, b) == (if row_choices@[a] {
                    self.force_at(a, b)
                } else {
                    other.force_at(a, b)
                }));
                assert(child.food_force_at(a) == (if row_choices@[a] {
                    self.food_force_at(a)
                } else {
                    other.food_force_at(a)
                }));
            }
        }
        child
    }

    /// Start from the more coherent parent and overwrite a small share of the
    /// entries from the other.
    fn adaptive_crossover(&self, other: &Genotype, rng: &mut rand::rngs::StdRng)
        -> (child: Genotype)
        requires
            self.wf(),
            other.wf(),
            self.type_count == other.type_count,
        ensures
            crossover_child_sp(child, *self, *other),
    {
        let from_self = self.strategy_coherence > other.strategy_coherence;
        let mut child = if from_self {
            clone_genotype(self)
        } else {
            clone_genotype(other)
        };
        child.fitness_history = Vec::new();
        child.strategy_coherence = 1000;

        let mlen = child.force_matrix.len();
        let mut i: usize = 0;
        while i < mlen
            invariant
                self.wf(),
                other.wf(),
                self.type_count == other.type_count,
                mlen == self.force_matrix@.len(),
                child.force_matrix@.len() == mlen,
                child.food_forces@.len() == self.food_forces@.len(),
                child.type_count == self.type_count,
                child.fitness_history@.len() == 0,
                child.strategy_coherence == 1000,
                0 <= i <= mlen,
                forall|c: int| 0 <= c < mlen
                    ==> #[trigger] child.force_matrix@[c] == self.force_matrix@[c]
                        || child.force_matrix@[c] == other.force_matrix@[c],
                forall|c: int| 0 <= c < child.food_forces@.len()
                    ==> #[trigger] child.food_forces@[c] == self.food_forces@[c]
                        || child.food_forces@[c] == other.food_forces@[c],
            decreases mlen - i,
        {
            if draw_milli(rng) < 200 {
                if from_self {
                    child.force_matrix[i] = other.force_matrix[i];
                } else {
                    child.force_matrix[i] = self.force_matrix[i];
                }
            }
            i = i + 1;
        }

        let flen = child.food_forces.len();
        let mut t: usize = 0;
        while t < flen
            invariant
                self.wf(),
                other.wf(),
                self.type_count == other.type_count,
                flen == self.food_forces@.len(),
                child.force_matrix@.len() == self.force_matrix@.len(),
                child.food_forces@.len() == flen,
                child.type_count == self.type_count,
                child.fitness_history@.len() == 0,
                child.strategy_coherence == 1000,
                0 <= t <= flen,
                forall|c: int| 0 <= c < child.force_matrix@.len()
                    ==> #[trigger] child.force_matrix@[c] == self.force_matrix@[c]
                        || child.force_matrix@[c] == other.force_matrix@[c],
                forall|c: int| 0 <= c < flen
                    ==> #[trigger] child.food_forces@[c] == self.food_forces@[c]
                        || child.food_forces@[c] == other.food_forces@[c],
            decreases flen - t,
        {
            if draw_milli(rng) < 100 {
                if from_self {
                    child.food_forces[t] = other.food_forces[t];
                } else {
                    child.food_forces[t] = self.food_forces[t];
                }
            }
            t = t + 1;
        }

        let coherence = child.calculate_strategy_coherence();
        let ghost before_score = child;
        child.strategy_coherence = coherence;
        proof {
            crate::coherence::lemma_coherence_same_data(before_score, child);
        }
        child
    }
}

impl Genotype {
    /// Install a predefined, validated strategy: for three types the
    /// rock-paper-scissors cycle, for four types a chain with crossed
    /// repulsions; any other type count searches a few random candidates for
    /// a reasonably coherent one.  The coherence score is recomputed at the
    /// end.
    pub fn set_interesting_forces(&mut self, rng: &mut rand::rngs::StdRng)
        requires
            old(self).wf(),
        ensures
            final(self).wf(),
            final(self).type_count == old(self).type_count,
            final(self).fitness_history@ == old(self).fitness_history@,
            final(self).strategy_coherence == coherence_sp(*final(self)),
            old(self).type_count == 3 ==> {
                &&& final(self).force_matrix@
                    == seq![-300i64, 1000i64, -500i64, -500i64, -300i64, 1000i64,
                        1000i64, -500i64, -300i64]
                &&& final(self).food_forces@ == seq![800i64, -300i64, 500i64]
            },
            old(self).type_count == 4 ==> {
                &&& final(self).force_matrix@
                    == seq![-400i64, 1500i64, -1000i64, 0i64,
                        0i64, -400i64, 800i64, -800i64,
                        -600i64, 0i64, -400i64, 1200i64,
                        600i64, -1200i64, 0i64, -400i64]
                &&& final(self).food_forces@ == seq![600i64, -400i64, 800i64, -200i64]
            },
    {
        if self.type_count == 3 {
            // The rock-paper-scissors cycle: each type chases the next and
            // flees the previous, with self-repulsion on the diagonal.
            let mut m: Vec<i64> = Vec::new();
            m.push(-300); m.push(1000); m.push(-500);
            m.push(-500); m.push(-300); m.push(1000);
            m.push(1000); m.push(-500); m.push(-300);
            let mut f: Vec<i64> = Vec::new();
            f.push(800); f.push(-300); f.push(500);
            self.force_matrix = m;
            self.food_forces = f;
            proof {
                assert(self.force_matrix@ =~= seq![-300i64, 1000i64, -500i64, -500i64,
                    -300i64, 1000i64, 1000i64, -500i64, -300i64]);
                assert(self.food_forces@ =~= seq![800i64, -300i64, 500i64]);
            }
        } else if self.type_count == 4 {
            // A four-type chase chain with crossed repulsions.
            let mut m: Vec<i64> = Vec::new();
            m.push(-400); m.push(1500); m.push(-1000); m.push(0);
            m.push(0); m.push(-400); m.push(800); m.push(-800);
            m.push(-600); m.push(0); m.push(-400); m.push(1200);
            m.push(600); m.push(-1200); m.push(0); m.push(-400);
            let mut f: Vec<i64> = Vec::new();
            f.push(600); f.push(-400); f.push(800); f.push(-200);
            self.force_matrix = m;
            self.food_forces = f;
            proof {
                assert(self.force_matrix@ =~= seq![-400i64, 1500i64, -1000i64, 0i64,
                    0i64, -400i64, 800i64, -800i64,
                    -600i64, 0i64, -400i64, 1200i64,
                    600i64, -1200i64, 0i64, -400i64]);
                assert(self.food_forces@ =~= seq![600i64, -400i64, 800i64, -200i64]);
            }
        } else {
            // Search a few random candidates for a coherent strategy.
            let tc = self.type_count;
            let mut round: usize = 0;
            while round < 5
                invariant
                    self.wf(),
                    self.type_count == old(self).type_count,
                    self.fitness_history@ == old(self).fitness_history@,
                    1 <= tc == self.type_count <= MAX_TYPES,
                decreases 5 - round,
            {
                let candidate = Genotype::generate_candidate(tc, rng);
                if candidate.calculate_strategy_coherence() > 500 {
                    self.force_matrix = candidate.force_matrix;
                    self.food_forces = candidate.food_forces;
                    break;
                }
                round = round + 1;
            }
        }
        let coherence = self.calculate_strategy_coherence();
        let ghost before_score = *self;
        self.strategy_coherence = coherence;
        proof {
            crate::coherence::lemma_coherence_same_data(before_score, *self);
        }
    }
}

/// The mirror of an off-diagonal row-major code comes earlier in the scan.
proof fn lemma_mirror_code_smaller(j: int, i: int, tc: int)
    requires
        0 <= j < i < tc,
    ensures
        j * tc + i < i * tc + j,
{
    assert(j * tc + i < i * tc + j) by (nonlinear_arith)
        requires 0 <= j < i < tc;
}

} // verus!
