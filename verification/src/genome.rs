//! The genome: a particle-interaction strategy as plain data.
//!
//! A genome holds a `type_count * type_count` force matrix (row-major: entry
//! `a * type_count + b` is the signed coefficient from type `a` toward type
//! `b`), one food affinity per type, a short fitness history and a derived
//! coherence score.  All values are in milli units; decoded forces are clamped
//! to `[-FORCE_LIMIT, FORCE_LIMIT]`.

use vstd::prelude::*;
use crate::fixed::FORCE_LIMIT;

verus! {

/// Largest supported number of particle types.
pub const MAX_TYPES: usize = 256;

/// How many recent fitness values a genome remembers.
pub const HISTORY_LIMIT: usize = 10;

/// Scores and fitness-history entries are bounded by one million simulated
/// units (in milli units), which keeps every statistic inside `i64`.
pub const MAX_SCORE: i64 = 1_000_000_000;

/// Why a stored genome was rejected on load.
#[derive(Clone, Copy, Debug, PartialEq, Eq, Structural)]
pub enum GenomeError {
    /// `type_count` is zero or larger than `MAX_TYPES`.
    BadTypeCount,
    /// `force_matrix` is not `type_count * type_count` entries long.
    ForceMatrixLength,
    /// `food_forces` is not `type_count` entries long.
    FoodForcesLength,
    /// A force value lies outside `[-FORCE_LIMIT, FORCE_LIMIT]`.
    ValueOutOfRange,
    /// The fitness history is longer than `HISTORY_LIMIT` or holds a value
    /// outside `[0, MAX_SCORE]`.
    BadHistory,
    /// The stored coherence lies outside `[0, 1000]`.
    BadCoherence,
}

/// The heritable encoding of one population's strategy.
#[derive(Clone, Debug)]
pub struct Genotype {
    pub force_matrix: Vec<i64>,
    pub food_forces: Vec<i64>,
    pub type_count: usize,
    pub fitness_history: Vec<i64>,
    pub strategy_coherence: i64,
}

impl Genotype {
    /// Structural invariant: lengths match the type count and every value is
    /// within its range.
    pub open spec fn wf(self) -> bool {
        &&& 1 <= self.type_count <= MAX_TYPES
        &&& self.force_matrix@.len() == self.type_count * self.type_count
        &&& self.food_forces@.len() == self.type_count
        &&& forall|i: int| 0 <= i < self.force_matrix@.len()
            ==> -FORCE_LIMIT <= #[trigger] self.force_matrix@[i] <= FORCE_LIMIT
        &&& forall|i: int| 0 <= i < self.food_forces@.len()
            ==> -FORCE_LIMIT <= #[trigger] self.food_forces@[i] <= FORCE_LIMIT
        &&& self.fitness_history@.len() <= HISTORY_LIMIT
        &&& forall|i: int| 0 <= i < self.fitness_history@.len()
            ==> 0 <= #[trigger] self.fitness_history@[i] <= MAX_SCORE
        &&& 0 <= self.strategy_coherence <= 1000
    }

    /// The decoded force from type `a` toward type `b`: the matrix entry for
    /// indices in range, `0` otherwise.
    pub open spec fn force_at(self, a: int, b: int) -> i64 {
        if 0 <= a < self.type_count && 0 <= b < self.type_count {
            self.force_matrix@[a * self.type_count + b]
        } else {
            0
        }
    }

    /// The decoded food affinity of type `t`: the entry for `t` in range, `0`
    /// otherwise.
    pub open spec fn food_force_at(self, t: int) -> i64 {
        if 0 <= t < self.type_count {
            self.food_forces@[t]
        } else {
            0
        }
    }

    /// An all-zero genome of `type_count` types.
    pub fn new(type_count: usize) -> (r: Genotype)
        requires
            1 <= type_count <= MAX_TYPES,
        ensures
            r.wf(),
            r.type_count == type_count,
            forall|a: int, b: int| r.force_at(a, b) == 0,
            forall|t: int| r.food_force_at(t) == 0,
            r.fitness_history@.len() == 0,
            r.strategy_coherence == 1000,
    {
        proof {
            crate::fixed::lemma_square_monotone(type_count as int, MAX_TYPES as int);
        }
        let matrix_size = type_count * type_count;
        let g = Genotype {
            force_matrix: zeros(matrix_size),
            food_forces: zeros(type_count),
            type_count,
            fitness_history: Vec::new(),
            strategy_coherence: 1000,
        };
        proof {
            assert forall|a: int, b: int| #[trigger] g.force_at(a, b) == 0 by {
                if 0 <= a < type_count && 0 <= b < type_count {
                    lemma_row_major_index_in_range(a, b, type_count as int);
                }
            }
        }
        g
    }

    /// Decode the interaction coefficient from type `a` toward type `b`.
    ///
    /// Total on purpose: an out-of-range index decodes to `0` rather than
    /// erroring, because this sits on the hot path of force computation.  The
    /// result is pinned to the matrix entry, so decoding is deterministic, and
    /// it always lies within `[-FORCE_LIMIT, FORCE_LIMIT]`.
    pub fn get_force(&self, type_a: usize, type_b: usize) -> (r: i64)
        requires
            self.wf(),
        ensures
            r == self.force_at(type_a as int, type_b as int),
            -FORCE_LIMIT <= r <= FORCE_LIMIT,
    {
        if type_a < self.type_count && type_b < self.type_count {
            proof {
                lemma_row_major_index_in_range(type_a as int, type_b as int, self.type_count as int);
                crate::fixed::lemma_square_monotone(self.type_count as int, MAX_TYPES as int);
            }
            let index = type_a * self.type_count + type_b;
            self.force_matrix[index]
        } else {
            0
        }
    }

    /// Decode the food affinity of one type; `0` for an out-of-range type.
    pub fn get_food_force(&self, particle_type: usize) -> (r: i64)
        requires
            self.wf(),
        ensures
            r == self.food_force_at(particle_type as int),
            -FORCE_LIMIT <= r <= FORCE_LIMIT,
    {
        if particle_type < self.type_count {
            self.food_forces[particle_type]
        } else {
            0
        }
    }

    /// Overwrite the interaction coefficient from `a` toward `b`; indices out
    /// of range leave the genome unchanged.  The stored coherence goes stale;
    /// callers recompute it before the genome is used again.
    pub fn set_force(&mut self, type_a: usize, type_b: usize, force: i64)
        requires
            old(self).wf(),
            -FORCE_LIMIT <= force <= FORCE_LIMIT,
        ensures
            final(self).wf(),
            final(self).type_count == old(self).type_count,
            final(self).food_forces@ == old(self).food_forces@,
            final(self).fitness_history@ == old(self).fitness_history@,
            final(self).strategy_coherence == old(self).strategy_coherence,
            type_a < old(self).type_count && type_b < old(self).type_count
                ==> final(self).force_matrix@ == old(self).force_matrix@.update(
                    type_a * old(self).type_count + type_b, force),
            !(type_a < old(self).type_count && type_b < old(self).type_count)
                ==> final(self).force_matrix@ == old(self).force_matrix@,
            forall|a: int, b: int| #![trigger final(self).force_at(a, b)]
                final(self).force_at(a, b) == if a == type_a as int && b == type_b as int
                    && 0 <= a < old(self).type_count && 0 <= b < old(self).type_count {
                    force
                } else {
                    old(self).force_at(a, b)
                },
    {
        if type_a < self.type_count && type_b < self.type_count {
            proof {
                lemma_row_major_index_in_range(type_a as int, type_b as int, self.type_count as int);
                lemma_row_major_index_injective(self.type_count as int);
                crate::fixed::lemma_square_monotone(self.type_count as int, MAX_TYPES as int);
            }
            let index = type_a * self.type_count + type_b;
            self.force_matrix[index] = force;
            proof {
                let tc = self.type_count as int;
                assert forall|a: int, b: int| #[trigger] self.force_at(a, b)
                    == if a == type_a as int && b == type_b as int && 0 <= a < tc && 0 <= b < tc {
                        force
                    } else {
                        old(self).force_at(a, b)
                    } by {
                    if 0 <= a < tc && 0 <= b < tc {
                        lemma_row_major_index_in_range(a, b, tc);
                        if !(a == type_a as int && b == type_b as int) {
                            assert(a * tc + b != type_a as int * tc + type_b as int)
                                by (nonlinear_arith)
                                requires
                                    0 <= a < tc,
                                    0 <= b < tc,
                                    0 <= (type_a as int) < tc,
                                    0 <= (type_b as int) < tc,
                                    !(a == type_a as int && b == type_b as int);
                        }
                    }
                }
            }
        }
    }

    /// Append one epoch's fitness, keeping only the `HISTORY_LIMIT` most
    /// recent values.
    pub fn update_fitness_history(&mut self, fitness: i64)
        requires
            old(self).wf(),
            0 <= fitness <= MAX_SCORE,
        ensures
            final(self).wf(),
            final(self).type_count == old(self).type_count,
            final(self).force_matrix@ == old(self).force_matrix@,
            final(self).food_forces@ == old(self).food_forces@,
            final(self).strategy_coherence == old(self).strategy_coherence,
            old(self).fitness_history@.len() < HISTORY_LIMIT
                ==> final(self).fitness_history@ == old(self).fitness_history@.push(fitness),
            old(self).fitness_history@.len() == HISTORY_LIMIT
                ==> final(self).fitness_history@
                    == old(self).fitness_history@.push(fitness).drop_first(),
    {
        self.fitness_history.push(fitness);
        if self.fitness_history.len() > HISTORY_LIMIT {
            self.fitness_history.remove(0);
            proof {
                assert(final(self).fitness_history@
                    =~= old(self).fitness_history@.push(fitness).drop_first());
            }
        }
    }

    /// The recent-versus-older fitness delta, `0` while fewer than three
    /// values are recorded.
    pub fn get_fitness_trend(&self) -> (r: i64)
        requires
            self.wf(),
        ensures
            r == fitness_trend_sp(*self),
            -2 * MAX_SCORE <= r <= 2 * MAX_SCORE,
    {
        let n = self.fitness_history.len();
        if n < 3 {
            return 0;
        }
        let recent = self.fitness_history[n - 1] + self.fitness_history[n - 2]
            + self.fitness_history[n - 3];
        let older = self.fitness_history[0] + self.fitness_history[1] + self.fitness_history[2];
        recent / 3 - older / 3
    }

    /// The full force matrix as rows of decoded coefficients.
    pub fn get_force_matrix(&self) -> (r: Vec<Vec<i64>>)
        requires
            self.wf(),
        ensures
            r@.len() == self.type_count,
            forall|i: int| 0 <= i < self.type_count ==> #[trigger] r@[i]@.len() == self.type_count,
            forall|i: int, j: int| 0 <= i < self.type_count && 0 <= j < self.type_count
                ==> #[trigger] r@[i]@[j] == self.force_at(i, j),
    {
        let mut matrix: Vec<Vec<i64>> = Vec::new();
        let mut i: usize = 0;
        while i < self.type_count
            invariant
                self.wf(),
                0 <= i <= self.type_count,
                matrix@.len() == i,
                forall|a: int| 0 <= a < i ==> #[trigger] matrix@[a]@.len() == self.type_count,
                forall|a: int, b: int| 0 <= a < i && 0 <= b < self.type_count
                    ==> #[trigger] matrix@[a]@[b] == self.force_at(a, b),
            decreases self.type_count - i,
        {
            let mut row: Vec<i64> = Vec::new();
            let mut j: usize = 0;
            while j < self.type_count
                invariant
                    self.wf(),
                    0 <= i < self.type_count,
                    0 <= j <= self.type_count,
                    row@.len() == j,
                    forall|b: int| 0 <= b < j ==> #[trigger] row@[b] == self.force_at(i as int, b),
                decreases self.type_count - j,
            {
                row.push(self.get_force(i, j));
                j = j + 1;
            }
            matrix.push(row);
            i = i + 1;
        }
        matrix
    }

    /// Validate externally supplied genome data, as on loading an archived
    /// population; a malformed genome is rejected, never truncated.
    pub fn from_parts(
        force_matrix: Vec<i64>,
        food_forces: Vec<i64>,
        type_count: usize,
        fitness_history: Vec<i64>,
    ) -> (r: Result<Genotype, GenomeError>)
        ensures
            r is Ok <==> {
                &&& 1 <= type_count <= MAX_TYPES
                &&& force_matrix@.len() == type_count * type_count
                &&& food_forces@.len() == type_count
                &&& forall|i: int| 0 <= i < force_matrix@.len()
                    ==> -FORCE_LIMIT <= #[trigger] force_matrix@[i] <= FORCE_LIMIT
                &&& forall|i: int| 0 <= i < food_forces@.len()
                    ==> -FORCE_LIMIT <= #[trigger] food_forces@[i] <= FORCE_LIMIT
                &&& fitness_history@.len() <= HISTORY_LIMIT
                &&& forall|i: int| 0 <= i < fitness_history@.len()
                    ==> 0 <= #[trigger] fitness_history@[i] <= MAX_SCORE
            },
            r is Ok ==> {
                &&& r->Ok_0.wf()
                &&& r->Ok_0.force_matrix@ == force_matrix@
                &&& r->Ok_0.food_forces@ == food_forces@
                &&& r->Ok_0.type_count == type_count
                &&& r->Ok_0.fitness_history@ == fitness_history@
            },
            r is Err ==> {
                ||| r->Err_0 == GenomeError::BadTypeCount
                ||| r->Err_0 == GenomeError::ForceMatrixLength
                ||| r->Err_0 == GenomeError::FoodForcesLength
                ||| r->Err_0 == GenomeError::ValueOutOfRange
                ||| r->Err_0 == GenomeError::BadHistory
            },
    {
        if type_count < 1 || type_count > MAX_TYPES {
            return Err(GenomeError::BadTypeCount);
        }
        proof {
            crate::fixed::lemma_square_monotone(type_count as int, MAX_TYPES as int);
        }
        if force_matrix.len() != type_count * type_count {
            return Err(GenomeError::ForceMatrixLength);
        }
        if food_forces.len() != type_count {
            return Err(GenomeError::FoodForcesLength);
        }
        if !all_within(&force_matrix, -FORCE_LIMIT, FORCE_LIMIT)
            || !all_within(&food_forces, -FORCE_LIMIT, FORCE_LIMIT) {
            return Err(GenomeError::ValueOutOfRange);
        }
        if fitness_history.len() > HISTORY_LIMIT || !all_within(&fitness_history, 0, MAX_SCORE) {
            return Err(GenomeError::BadHistory);
        }
        Ok(Genotype {
            force_matrix,
            food_forces,
            type_count,
            fitness_history,
            strategy_coherence: 0,
        })
    }
}

impl Genotype {
    /// Restore an archived genome: validate it as `from_parts` does, check
    /// the stored coherence, and treat a stored coherence of exactly zero as
    /// unset, recomputing it before the genome is used for physics.
    pub fn from_archive(
        force_matrix: Vec<i64>,
        food_forces: Vec<i64>,
        type_count: usize,
        fitness_history: Vec<i64>,
        strategy_coherence: i64,
    ) -> (r: Result<Genotype, GenomeError>)
        ensures
            (r is Ok) <==> ({
                &&& 1 <= type_count <= MAX_TYPES
                &&& force_matrix@.len() == type_count * type_count
                &&& food_forces@.len() == type_count
                &&& forall|i: int| 0 <= i < force_matrix@.len()
                    ==> -FORCE_LIMIT <= #[trigger] force_matrix@[i] <= FORCE_LIMIT
                &&& forall|i: int| 0 <= i < food_forces@.len()
                    ==> -FORCE_LIMIT <= #[trigger] food_forces@[i] <= FORCE_LIMIT
                &&& fitness_history@.len() <= HISTORY_LIMIT
                &&& forall|i: int| 0 <= i < fitness_history@.len()
                    ==> 0 <= #[trigger] fitness_history@[i] <= MAX_SCORE
                &&& 0 <= strategy_coherence <= 1000
            }),
            r is Ok ==> ({
                let g = r->Ok_0;
                &&& g.wf()
                &&& g.force_matrix@ == force_matrix@
                &&& g.food_forces@ == food_forces@
                &&& g.type_count == type_count
                &&& g.fitness_history@ == fitness_history@
                &&& g.strategy_coherence == (if strategy_coherence == 0 {
                    crate::coherence::coherence_sp(g)
                } else {
                    strategy_coherence as int
                })
            }),
            r is Err ==> ({
                ||| r->Err_0 == GenomeError::BadTypeCount
                ||| r->Err_0 == GenomeError::ForceMatrixLength
                ||| r->Err_0 == GenomeError::FoodForcesLength
                ||| r->Err_0 == GenomeError::ValueOutOfRange
                ||| r->Err_0 == GenomeError::BadHistory
                ||| r->Err_0 == GenomeError::BadCoherence
            }),
    {
        if strategy_coherence < 0 || strategy_coherence > 1000 {
            return Err(GenomeError::BadCoherence);
        }
        match Genotype::from_parts(force_matrix, food_forces, type_count, fitness_history) {
            Err(e) => Err(e),
            Ok(mut g) => {
                if strategy_coherence == 0 {
                    let coherence = g.calculate_strategy_coherence();
                    let ghost before = g;
                    g.strategy_coherence = coherence;
                    proof {
                        crate::coherence::lemma_coherence_same_data(before, g);
                    }
                } else {
                    g.strategy_coherence = strategy_coherence;
                }
                Ok(g)
            },
        }
    }
}

/// Two genomes carry the same data, field for field.
pub open spec fn genome_data_eq_sp(a: Genotype, b: Genotype) -> bool {
    &&& a.force_matrix@ == b.force_matrix@
    &&& a.food_forces@ == b.food_forces@
    &&& a.type_count == b.type_count
    &&& a.fitness_history@ == b.fitness_history@
    &&& a.strategy_coherence == b.strategy_coherence
}

/// The fitness trend: mean of the three most recent values minus the mean of
/// the three oldest, `0` with fewer than three recorded.
pub open spec fn fitness_trend_sp(g: Genotype) -> int {
    let h = g.fitness_history@;
    if h.len() < 3 {
        0
    } else {
        (h[h.len() - 1] + h[h.len() - 2] + h[h.len() - 3]) / 3 - (h[0] + h[1] + h[2]) / 3
    }
}

/// A vector of `n` zeros.
fn zeros(n: usize) -> (r: Vec<i64>)
    ensures
        r@.len() == n,
        forall|i: int| 0 <= i < n ==> #[trigger] r@[i] == 0,
{
    let mut v: Vec<i64> = Vec::new();
    let mut i: usize = 0;
    while i < n
        invariant
            0 <= i <= n,
            v@.len() == i,
            forall|j: int| 0 <= j < i ==> #[trigger] v@[j] == 0,
        decreases n - i,
    {
        v.push(0);
        i = i + 1;
    }
    v
}

/// Every entry of `v` lies within `[lo, hi]`.
fn all_within(v: &Vec<i64>, lo: i64, hi: i64) -> (r: bool)
    ensures
        r == forall|i: int| 0 <= i < v@.len() ==> lo <= #[trigger] v@[i] <= hi,
{
    let mut i: usize = 0;
    while i < v.len()
        invariant
            0 <= i <= v@.len(),
            forall|j: int| 0 <= j < i ==> lo <= #[trigger] v@[j] <= hi,
        decreases v@.len() - i,
    {
        let x = v[i];
        if x < lo || x > hi {
            return false;
        }
        i = i + 1;
    }
    true
}

/// A row-major index stays inside the matrix.
pub proof fn lemma_row_major_index_in_range(a: int, b: int, tc: int)
    requires
        0 <= a < tc,
        0 <= b < tc,
    ensures
        0 <= a * tc + b < tc * tc,
{
    assert(a * tc + b < tc * tc) by (nonlinear_arith)
        requires 0 <= a < tc, 0 <= b < tc;
    assert(a * tc >= 0) by (nonlinear_arith)
        requires 0 <= a, 0 < tc;
}

/// Distinct index pairs map to distinct row-major indices.
pub proof fn lemma_row_major_index_injective(tc: int)
    requires
        tc >= 1,
    ensures
        forall|a1: int, b1: int, a2: int, b2: int|
            0 <= a1 < tc && 0 <= b1 < tc && 0 <= a2 < tc && 0 <= b2 < tc
            && #[trigger] (a1 * tc + b1) == #[trigger] (a2 * tc + b2)
            ==> a1 == a2 && b1 == b2,
{
    assert forall|a1: int, b1: int, a2: int, b2: int|
        0 <= a1 < tc && 0 <= b1 < tc && 0 <= a2 < tc && 0 <= b2 < tc
        && #[trigger] (a1 * tc + b1) == #[trigger] (a2 * tc + b2)
        implies a1 == a2 && b1 == b2 by {
        assert(a1 == a2 && b1 == b2) by (nonlinear_arith)
            requires
                0 <= a1 < tc, 0 <= b1 < tc, 0 <= a2 < tc, 0 <= b2 < tc,
                a1 * tc + b1 == a2 * tc + b2;
    }
}

} // verus!
