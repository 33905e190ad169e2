//! The uniform spatial grid: the sub-linear neighbor-candidate index for the
//! bounded domain.
//!
//! Space is cut into cubic cells of the interaction radius; each cell holds
//! the particles of one population whose positions fall in it.  A query
//! visits the 3x3x3 block of cells around a position and returns every
//! particle of the queried population in that block — exactly those, no
//! more and no fewer — and the caller filters by exact distance.  The grid
//! is rebuilt from the fresh snapshot once per physical tick.
//!
//! Cell coordinates are taken on a fixed shifted axis so that the division
//! rounds the same way on both sides of the origin.

use vstd::prelude::*;
use vstd::assert_multisets_equal;
use crate::fixed::Vec3i;
use crate::physics::{ParticleState, MAX_COORD_AXIS};

verus! {

/// The shift that keeps every coordinate non-negative before cell division.
pub const CELL_OFFSET: i64 = 1_000_000_000;

/// The cell index of one coordinate, for cells of size `cs`.
pub open spec fn cell_of_sp(x: int, cs: int) -> int {
    (x + CELL_OFFSET) / cs
}

/// One grid cell: the particles of one population in one cube of space.
pub struct GridCell {
    pub sim_id: usize,
    pub cx: i64,
    pub cy: i64,
    pub cz: i64,
    pub items: Vec<usize>,
}

/// The uniform grid over one tick's particle snapshot.
pub struct SpatialGrid {
    pub cell_size: i64,
    pub cells: Vec<GridCell>,
}

/// Cell `c` carries exactly this key.
pub open spec fn cell_has_key_sp(c: GridCell, sim: int, cx: int, cy: int, cz: int) -> bool {
    &&& c.sim_id == sim
    &&& c.cx == cx
    &&& c.cy == cy
    &&& c.cz == cz
}

/// The cell key of particle `j` of the snapshot.
pub open spec fn key_of_sp(ps: Seq<ParticleState>, j: int, cs: int) -> (int, int, int, int) {
    (
        ps[j].sim_id as int,
        cell_of_sp(ps[j].position.x as int, cs),
        cell_of_sp(ps[j].position.y as int, cs),
        cell_of_sp(ps[j].position.z as int, cs),
    )
}

/// Particle `j` is filed in a cell carrying `j`'s own key.
pub open spec fn files_in_sp(cells: Seq<GridCell>, cs: int, ps: Seq<ParticleState>, j: int)
    -> bool {
    exists|c: int| {
        &&& 0 <= c < cells.len()
        &&& cell_has_key_sp(#[trigger] cells[c],
            key_of_sp(ps, j, cs).0, key_of_sp(ps, j, cs).1,
            key_of_sp(ps, j, cs).2, key_of_sp(ps, j, cs).3)
        &&& cells[c].items@.contains(j as usize)
    }
}

/// The cells index the snapshot `ps`: keys are unique, every filed entry
/// belongs to its cell, and every particle is filed.
pub open spec fn grid_inv_sp(cells: Seq<GridCell>, cs: int, ps: Seq<ParticleState>) -> bool {
    &&& forall|c1: int, c2: int|
        0 <= c1 < c2 < cells.len()
        ==> !cell_has_key_sp(#[trigger] cells[c1],
            (#[trigger] cells[c2]).sim_id as int, cells[c2].cx as int,
            cells[c2].cy as int, cells[c2].cz as int)
    &&& forall|c: int, t: int|
        0 <= c < cells.len() && 0 <= t < cells[c].items@.len()
        ==> {
            let j = #[trigger] cells[c].items@[t] as int;
            &&& j < ps.len()
            &&& cell_has_key_sp(cells[c],
                key_of_sp(ps, j, cs).0, key_of_sp(ps, j, cs).1,
                key_of_sp(ps, j, cs).2, key_of_sp(ps, j, cs).3)
        }
    &&& forall|j: int| 0 <= j < ps.len() ==> files_in_sp(cells, cs, ps, #[trigger] (j + 0))
    &&& forall|c: int, t1: int, t2: int|
        0 <= c < cells.len() && 0 <= t1 < t2 < cells[c].items@.len()
        ==> (#[trigger] cells[c].items@[t1]) != (#[trigger] cells[c].items@[t2])
}

impl SpatialGrid {
    /// Particle `j` is filed in a cell carrying `j`'s own key.
    pub open spec fn files_sp(self, ps: Seq<ParticleState>, j: int) -> bool {
        files_in_sp(self.cells@, self.cell_size as int, ps, j)
    }

    /// The grid indexes the snapshot `ps`.
    pub open spec fn wf(self, ps: Seq<ParticleState>) -> bool {
        &&& self.cell_size >= 1
        &&& grid_inv_sp(self.cells@, self.cell_size as int, ps)
    }

    /// Build the grid over one tick's snapshot.
    pub fn rebuild(particles: &Vec<ParticleState>, cell_size: i64) -> (g: SpatialGrid)
        requires
            cell_size >= 1,
            forall|k: int| 0 <= k < particles@.len() ==> {
                let pos = (#[trigger] particles@[k]).position;
                &&& -MAX_COORD_AXIS <= pos.x <= MAX_COORD_AXIS
                &&& -MAX_COORD_AXIS <= pos.y <= MAX_COORD_AXIS
                &&& -MAX_COORD_AXIS <= pos.z <= MAX_COORD_AXIS
            },
        ensures
            g.cell_size == cell_size,
            g.wf(particles@),
    {
        let n = particles.len();
        let mut cells: Vec<GridCell> = Vec::new();
        let mut j: usize = 0;
        while j < n
            invariant
                cell_size >= 1,
                n == particles@.len(),
                forall|k: int| 0 <= k < particles@.len() ==> {
                    let pos = (#[trigger] particles@[k]).position;
                    &&& -MAX_COORD_AXIS <= pos.x <= MAX_COORD_AXIS
                    &&& -MAX_COORD_AXIS <= pos.y <= MAX_COORD_AXIS
                    &&& -MAX_COORD_AXIS <= pos.z <= MAX_COORD_AXIS
                },
                0 <= j <= n,
                (SpatialGrid { cell_size, cells }).wf(particles@.subrange(0, j as int)),
                forall|c: int, t: int|
                    0 <= c < cells@.len() && 0 <= t < cells@[c].items@.len()
                    ==> (#[trigger] cells@[c].items@[t]) < j,
            decreases n - j,
        {
            let ghost pre = cells@;
            let ghost prefix = particles@.subrange(0, j as int);
            let ghost prefix1 = particles@.subrange(0, j + 1);
            let pos = particles[j].position;
            let sim = particles[j].sim_id;
            let cx = (pos.x + CELL_OFFSET) / cell_size;
            let cy = (pos.y + CELL_OFFSET) / cell_size;
            let cz = (pos.z + CELL_OFFSET) / cell_size;

            // Find this key's cell, if it exists.
            let mut found = false;
            let mut at: usize = 0;
            let mut c: usize = 0;
            while c < cells.len()
                invariant
                    0 <= c <= cells@.len(),
                    found ==> at < cells@.len(),
                    found ==> cell_has_key_sp(cells@[at as int], sim as int, cx as int,
                        cy as int, cz as int),
                    !found ==> forall|d: int| 0 <= d < c
                        ==> !cell_has_key_sp(#[trigger] cells@[d], sim as int, cx as int,
                            cy as int, cz as int),
                decreases cells@.len() - c,
            {
                if !found {
                    let cell = &cells[c];
                    if cell.sim_id == sim && cell.cx == cx && cell.cy == cy && cell.cz == cz {
                        found = true;
                        at = c;
                    }
                }
                c = c + 1;
            }

            proof {
                assert(prefix1 == prefix.push(particles@[j as int]));
                assert(forall|k: int| 0 <= k < j ==> prefix1[k] == prefix[k]);
                assert(prefix1[j as int] == particles@[j as int]);
            }
            if found {
                let cell = &mut cells[at];
                cell.items.push(j);
            } else {
                let mut items: Vec<usize> = Vec::new();
                items.push(j);
                cells.push(GridCell { sim_id: sim, cx, cy, cz, items });
            }
            proof {
                let csi = cell_size as int;
                assert forall|jj: int| 0 <= jj < prefix1.len()
                    implies files_in_sp(cells@, csi, prefix1, #[trigger] (jj + 0)) by {
                    if jj < j {
                        assert(files_in_sp(pre, csi, prefix, jj + 0));
                        let c0 = choose|c0: int| {
                            &&& 0 <= c0 < pre.len()
                            &&& cell_has_key_sp(#[trigger] pre[c0],
                                key_of_sp(prefix, jj, csi).0,
                                key_of_sp(prefix, jj, csi).1,
                                key_of_sp(prefix, jj, csi).2,
                                key_of_sp(prefix, jj, csi).3)
                            &&& pre[c0].items@.contains(jj as usize)
                        };
                        assert(cells@[c0].items@.contains(jj as usize)) by {
                            if found && c0 == at {
                                assert(cells@[c0].items@
                                    == pre[c0].items@.push(j as usize));
                                let t0 = choose|t0: int| 0 <= t0 < pre[c0].items@.len()
                                    && pre[c0].items@[t0] == jj as usize;
                                assert(cells@[c0].items@[t0] == jj as usize);
                            } else {
                                assert(cells@[c0] == pre[c0]);
                            }
                        }
                        assert(key_of_sp(prefix1, jj, csi) == key_of_sp(prefix, jj, csi));
                        assert(files_in_sp(cells@, csi, prefix1, jj));
                    } else {
                        if found {
                            assert(cells@[at as int].items@.contains(j as usize)) by {
                                let items1 = cells@[at as int].items@;
                                assert(items1[items1.len() - 1] == j as usize);
                            }
                            assert(files_in_sp(cells@, csi, prefix1, jj));
                        } else {
                            let last = cells@.len() - 1;
                            assert(cells@[last].items@.contains(j as usize)) by {
                                assert(cells@[last].items@[0] == j as usize);
                            }
                            assert(files_in_sp(cells@, csi, prefix1, jj));
                        }
                    }
                }
            }
            j = j + 1;
        }
        proof {
            assert(particles@.subrange(0, n as int) == particles@);
        }
        SpatialGrid { cell_size, cells }
    }

    /// Every particle of population `sim_id` filed within the 3x3x3 block of
    /// cells around `position` — exactly those.
    pub fn get_potential_neighbors(
        &self,
        particles: &Vec<ParticleState>,
        position: Vec3i,
        simulation_id: usize,
    ) -> (r: Vec<usize>)
        requires
            self.wf(particles@),
            -MAX_COORD_AXIS <= position.x <= MAX_COORD_AXIS,
            -MAX_COORD_AXIS <= position.y <= MAX_COORD_AXIS,
            -MAX_COORD_AXIS <= position.z <= MAX_COORD_AXIS,
        ensures
            forall|j: int| 0 <= j < particles@.len() ==> (r@.contains(j as usize) <==> {
                let cs = self.cell_size as int;
                let p = #[trigger] particles@[j];
                &&& p.sim_id == simulation_id
                &&& -1 <= cell_of_sp(p.position.x as int, cs)
                    - cell_of_sp(position.x as int, cs) <= 1
                &&& -1 <= cell_of_sp(p.position.y as int, cs)
                    - cell_of_sp(position.y as int, cs) <= 1
                &&& -1 <= cell_of_sp(p.position.z as int, cs)
                    - cell_of_sp(position.z as int, cs) <= 1
            }),
            forall|v: usize| #[trigger] r@.contains(v) ==> (v as int) < particles@.len(),
            r@.no_duplicates(),
    {
        let n_particles = particles.len();
        let cs = self.cell_size;
        proof {
            assert(particles@.len() == n_particles);
            lemma_cell_range(position.x as int, cs as int);
            lemma_cell_range(position.y as int, cs as int);
            lemma_cell_range(position.z as int, cs as int);
        }
        let qx = (position.x + CELL_OFFSET) / cs;
        let qy = (position.y + CELL_OFFSET) / cs;
        let qz = (position.z + CELL_OFFSET) / cs;
        let mut r: Vec<usize> = Vec::new();
        let mut c: usize = 0;
        while c < self.cells.len()
            invariant
                self.wf(particles@),
                cs == self.cell_size,
                qx == cell_of_sp(position.x as int, cs as int),
                qy == cell_of_sp(position.y as int, cs as int),
                qz == cell_of_sp(position.z as int, cs as int),
                0 <= qx <= 2_000_000_000,
                0 <= qy <= 2_000_000_000,
                0 <= qz <= 2_000_000_000,
                0 <= c <= self.cells@.len(),
                forall|v: usize| #[trigger] r@.contains(v) ==> (v as int) < particles@.len(),
                r@.no_duplicates(),
                forall|j: int| #![trigger r@.contains(j as usize)]
                    0 <= j < particles@.len() ==> (r@.contains(j as usize) <==> {
                    exists|d: int| {
                        &&& 0 <= d < c
                        &&& cell_block_match_sp(#[trigger] self.cells@[d],
                            simulation_id as int, qx as int, qy as int, qz as int)
                        &&& self.cells@[d].items@.contains(j as usize)
                    }
                }),
            decreases self.cells@.len() - c,
        {
            let ghost r_before = r@;
            let cell = &self.cells[c];
            let near = cell.sim_id == simulation_id
                && cell.cx >= qx - 1 && cell.cx <= qx + 1
                && cell.cy >= qy - 1 && cell.cy <= qy + 1
                && cell.cz >= qz - 1 && cell.cz <= qz + 1;
            if near {
                let mut t: usize = 0;
                while t < cell.items.len()
                    invariant
                        0 <= t <= cell.items@.len(),
                        r@ == r_before + cell.items@.subrange(0, t as int),
                    decreases cell.items@.len() - t,
                {
                    r.push(cell.items[t]);
                    t = t + 1;
                }
                proof {
                    assert(cell.items@.subrange(0, cell.items@.len() as int) == cell.items@);
                    assert(r@ == r_before + cell.items@);
                }
            }
            proof {
                let cc = c as int;
                let items = self.cells@[cc].items@;
                assert forall|v: usize| #[trigger] r@.contains(v)
                    implies (v as int) < particles@.len() by {
                    if near {
                        lemma_contains_split(r_before, items, v);
                        if items.contains(v) {
                            let t = choose|t: int| 0 <= t < items.len() && items[t] == v;
                            assert(self.cells@[cc].items@[t] == v);
                        }
                    }
                }
                assert forall|t1: int, t2: int|
                    0 <= t1 < r@.len() && 0 <= t2 < r@.len() && t1 != t2
                    implies r@[t1] != r@[t2] by {
                    if near {
                        let lb = r_before.len() as int;
                        if t1 < lb && t2 < lb {
                            // Both in the prefix, distinct by the invariant.
                        } else if t1 >= lb && t2 >= lb {
                            // Both in the appended cell: its items are
                            // pairwise distinct by the grid invariant.
                            assert(r@[t1] == self.cells@[cc].items@[t1 - lb]);
                            assert(r@[t2] == self.cells@[cc].items@[t2 - lb]);
                        } else {
                            // One from the prefix, one from cell cc: the
                            // prefix entry was filed in an earlier cell, and
                            // both cells would carry the entry's own key,
                            // contradicting key uniqueness.
                            let tp = if t1 < lb { t1 } else { t2 };
                            let tn = if t1 < lb { t2 } else { t1 };
                            if r@[tp] == r@[tn] {
                                let v = r@[tp];
                                assert(r_before[tp] == v);
                                assert(r_before.contains(v));
                                let vi = v as int;
                                assert(vi < particles@.len());
                                assert(r_before.contains(vi as usize));
                                assert(self.cells@[cc].items@[tn - lb] == v);
                                let d = choose|d: int| {
                                    &&& 0 <= d < cc
                                    &&& cell_block_match_sp(#[trigger] self.cells@[d],
                                        simulation_id as int, qx as int, qy as int, qz as int)
                                    &&& self.cells@[d].items@.contains((vi as usize))
                                };
                                let td = choose|td: int| 0 <= td < self.cells@[d].items@.len()
                                    && self.cells@[d].items@[td] == (vi as usize);
                                assert(self.cells@[d].items@[td] == v);
                                let csi = self.cell_size as int;
                                assert(cell_has_key_sp(self.cells@[d],
                                    key_of_sp(particles@, vi, csi).0,
                                    key_of_sp(particles@, vi, csi).1,
                                    key_of_sp(particles@, vi, csi).2,
                                    key_of_sp(particles@, vi, csi).3));
                                assert(cell_has_key_sp(self.cells@[cc],
                                    key_of_sp(particles@, vi, csi).0,
                                    key_of_sp(particles@, vi, csi).1,
                                    key_of_sp(particles@, vi, csi).2,
                                    key_of_sp(particles@, vi, csi).3));
                                assert(!cell_has_key_sp(self.cells@[d],
                                    self.cells@[cc].sim_id as int, self.cells@[cc].cx as int,
                                    self.cells@[cc].cy as int, self.cells@[cc].cz as int));
                                assert(false);
                            }
                        }
                    }
                }
                assert forall|j: int| #![trigger r@.contains(j as usize)]
                    0 <= j < particles@.len()
                    implies (r@.contains(j as usize) <==> {
                        exists|d: int| {
                            &&& 0 <= d < cc + 1
                            &&& cell_block_match_sp(#[trigger] self.cells@[d],
                                simulation_id as int, qx as int, qy as int, qz as int)
                            &&& self.cells@[d].items@.contains(j as usize)
                        }
                    }) by {
                    if near {
                        assert(r@ == r_before + items);
                        if r@.contains(j as usize) {
                            lemma_contains_split(r_before, items, j as usize);
                            if r_before.contains(j as usize) {
                                let d0 = choose|d: int| {
                                    &&& 0 <= d < cc
                                    &&& cell_block_match_sp(#[trigger] self.cells@[d],
                                        simulation_id as int, qx as int, qy as int, qz as int)
                                    &&& self.cells@[d].items@.contains(j as usize)
                                };
                                assert(cell_block_match_sp(self.cells@[d0],
                                    simulation_id as int, qx as int, qy as int, qz as int));
                            } else {
                                assert(cell_block_match_sp(self.cells@[cc],
                                    simulation_id as int, qx as int, qy as int, qz as int));
                            }
                        }
                        if exists|d: int| {
                            &&& 0 <= d < cc + 1
                            &&& cell_block_match_sp(#[trigger] self.cells@[d],
                                simulation_id as int, qx as int, qy as int, qz as int)
                            &&& self.cells@[d].items@.contains(j as usize)
                        } {
                            let d = choose|d: int| {
                                &&& 0 <= d < cc + 1
                                &&& cell_block_match_sp(#[trigger] self.cells@[d],
                                    simulation_id as int, qx as int, qy as int, qz as int)
                                &&& self.cells@[d].items@.contains(j as usize)
                            };
                            if d == cc {
                                lemma_contains_extend(r_before, items, j as usize);
                            } else {
                                assert(r_before.contains(j as usize));
                                lemma_contains_left(r_before, items, j as usize);
                            }
                        }
                    } else {
                        assert(r@ == r_before);
                        if exists|d: int| {
                            &&& 0 <= d < cc + 1
                            &&& cell_block_match_sp(#[trigger] self.cells@[d],
                                simulation_id as int, qx as int, qy as int, qz as int)
                            &&& self.cells@[d].items@.contains(j as usize)
                        } {
                            let d = choose|d: int| {
                                &&& 0 <= d < cc + 1
                                &&& cell_block_match_sp(#[trigger] self.cells@[d],
                                    simulation_id as int, qx as int, qy as int, qz as int)
                                &&& self.cells@[d].items@.contains(j as usize)
                            };
                            assert(d != cc);
                        }
                    }
                }
            }
            c = c + 1;
        }
        proof {
            assert forall|j: int| #![trigger r@.contains(j as usize)]
                0 <= j < particles@.len()
                implies (r@.contains(j as usize) <==> {
                    let csi = self.cell_size as int;
                    let p = particles@[j];
                    &&& p.sim_id == simulation_id
                    &&& -1 <= cell_of_sp(p.position.x as int, csi)
                        - cell_of_sp(position.x as int, csi) <= 1
                    &&& -1 <= cell_of_sp(p.position.y as int, csi)
                        - cell_of_sp(position.y as int, csi) <= 1
                    &&& -1 <= cell_of_sp(p.position.z as int, csi)
                        - cell_of_sp(position.z as int, csi) <= 1
                }) by {
                let csi = self.cell_size as int;
                if r@.contains(j as usize) {
                    // Soundness: the entry came from a block cell, and the
                    // grid files entries under their own keys.
                    let d = choose|d: int| {
                        &&& 0 <= d < self.cells@.len()
                        &&& cell_block_match_sp(#[trigger] self.cells@[d],
                            simulation_id as int, qx as int, qy as int, qz as int)
                        &&& self.cells@[d].items@.contains(j as usize)
                    };
                    let items = self.cells@[d].items@;
                    let t = choose|t: int| 0 <= t < items.len() && items[t] == j as usize;
                    assert(self.cells@[d].items@[t] == j as usize);
                    let jj = self.cells@[d].items@[t] as int;
                    assert(grid_inv_sp(self.cells@, csi, particles@));
                    assert(jj < particles@.len() && cell_has_key_sp(self.cells@[d],
                        key_of_sp(particles@, jj, csi).0,
                        key_of_sp(particles@, jj, csi).1,
                        key_of_sp(particles@, jj, csi).2,
                        key_of_sp(particles@, jj, csi).3));
                    assert(jj == j);
                }
                if particles@[j].sim_id == simulation_id
                    && -1 <= cell_of_sp(particles@[j].position.x as int, csi) - qx <= 1
                    && -1 <= cell_of_sp(particles@[j].position.y as int, csi) - qy <= 1
                    && -1 <= cell_of_sp(particles@[j].position.z as int, csi) - qz <= 1 {
                    // Completeness: particle j is filed in a cell with its
                    // own key, and that cell lies in the queried block.
                    assert(self.files_sp(particles@, j + 0));
                    let c0 = choose|c0: int| {
                        &&& 0 <= c0 < self.cells@.len()
                        &&& cell_has_key_sp(#[trigger] self.cells@[c0],
                            key_of_sp(particles@, j, csi).0,
                            key_of_sp(particles@, j, csi).1,
                            key_of_sp(particles@, j, csi).2,
                            key_of_sp(particles@, j, csi).3)
                        &&& self.cells@[c0].items@.contains(j as usize)
                    };
                    assert(cell_block_match_sp(self.cells@[c0], simulation_id as int,
                        qx as int, qy as int, qz as int));
                }
            }
        }
        r
    }
}

/// The cell belongs to population `sim` and lies in the 3x3x3 block around
/// the queried cell.
pub open spec fn cell_block_match_sp(c: GridCell, sim: int, qx: int, qy: int, qz: int)
    -> bool {
    &&& c.sim_id == sim
    &&& qx - 1 <= c.cx <= qx + 1
    &&& qy - 1 <= c.cy <= qy + 1
    &&& qz - 1 <= c.cz <= qz + 1
}

/// Membership in a concatenation comes from one of the halves.
proof fn lemma_contains_split(a: Seq<usize>, b: Seq<usize>, v: usize)
    requires
        (a + b).contains(v),
    ensures
        a.contains(v) || b.contains(v),
{
    let t = choose|t: int| 0 <= t < (a + b).len() && (a + b)[t] == v;
    if t < a.len() {
        assert(a[t] == v);
    } else {
        assert(b[t - a.len()] == v);
    }
}

/// A member of the left half is a member of the concatenation.
proof fn lemma_contains_left(a: Seq<usize>, b: Seq<usize>, v: usize)
    requires
        a.contains(v),
    ensures
        (a + b).contains(v),
{
    let t = choose|t: int| 0 <= t < a.len() && a[t] == v;
    assert((a + b)[t] == v);
}

/// A member of the right half is a member of the concatenation.
proof fn lemma_contains_extend(left: Seq<usize>, right: Seq<usize>, v: usize)
    requires
        right.contains(v),
    ensures
        (left + right).contains(v),
{
    let t = choose|t: int| 0 <= t < right.len() && right[t] == v;
    assert((left + right)[left.len() + t] == v);
}

/// The cell coordinates of one position, for cells of size `cell_size`.
pub fn get_cell_key(position: Vec3i, cell_size: i64) -> (r: (i64, i64, i64))
    requires
        cell_size >= 1,
        -MAX_COORD_AXIS <= position.x <= MAX_COORD_AXIS,
        -MAX_COORD_AXIS <= position.y <= MAX_COORD_AXIS,
        -MAX_COORD_AXIS <= position.z <= MAX_COORD_AXIS,
    ensures
        r.0 == cell_of_sp(position.x as int, cell_size as int),
        r.1 == cell_of_sp(position.y as int, cell_size as int),
        r.2 == cell_of_sp(position.z as int, cell_size as int),
{
    (
        (position.x + CELL_OFFSET) / cell_size,
        (position.y + CELL_OFFSET) / cell_size,
        (position.z + CELL_OFFSET) / cell_size,
    )
}

/// Rebuild the grid for this tick's snapshot (cells sized to half the force
/// interaction radius, as the caller chooses).
pub fn update_spatial_grid(particles: &Vec<ParticleState>, cell_size: i64) -> (g: SpatialGrid)
    requires
        cell_size >= 1,
        forall|k: int| 0 <= k < particles@.len() ==> {
            let pos = (#[trigger] particles@[k]).position;
            &&& -MAX_COORD_AXIS <= pos.x <= MAX_COORD_AXIS
            &&& -MAX_COORD_AXIS <= pos.y <= MAX_COORD_AXIS
            &&& -MAX_COORD_AXIS <= pos.z <= MAX_COORD_AXIS
        },
    ensures
        g.cell_size == cell_size,
        g.wf(particles@),
{
    SpatialGrid::rebuild(particles, cell_size)
}

/// Sort candidate indices ascending by repeated minimum extraction, so a
/// caller can filter them in snapshot order.
pub fn sort_indices(v: &Vec<usize>) -> (s: Vec<usize>)
    ensures
        s@.len() == v@.len(),
        s@.to_multiset() == v@.to_multiset(),
        forall|i: int, j: int| 0 <= i < j < s@.len() ==> #[trigger] s@[i] <= #[trigger] s@[j],
{
    broadcast use vstd::seq_lib::group_to_multiset_ensures;

    let mut work: Vec<usize> = Vec::new();
    let mut c: usize = 0;
    while c < v.len()
        invariant
            0 <= c <= v@.len(),
            work@ == v@.subrange(0, c as int),
        decreases v@.len() - c,
    {
        work.push(v[c]);
        c = c + 1;
    }
    proof {
        assert(work@ =~= v@);
    }
    let mut out: Vec<usize> = Vec::new();
    while work.len() > 0
        invariant
            out@.len() + work@.len() == v@.len(),
            forall|i: int, j: int| 0 <= i < j < out@.len()
                ==> #[trigger] out@[i] <= #[trigger] out@[j],
            out@.to_multiset().add(work@.to_multiset()) == v@.to_multiset(),
            forall|i: int, j: int| 0 <= i < out@.len() && 0 <= j < work@.len()
                ==> #[trigger] out@[i] <= #[trigger] work@[j],
        decreases work@.len(),
    {
        let mut min_idx: usize = 0;
        let mut k: usize = 1;
        while k < work.len()
            invariant
                0 < work@.len(),
                0 <= min_idx < work@.len(),
                0 <= k <= work@.len(),
                forall|i: int| 0 <= i < k ==> work@[min_idx as int] <= #[trigger] work@[i],
            decreases work@.len() - k,
        {
            if work[k] < work[min_idx] {
                min_idx = k;
            }
            k = k + 1;
        }
        let value = work[min_idx];
        let ghost out_before = out@;
        let ghost work_before = work@;
        out.push(value);
        work.remove(min_idx);
        proof {
            vstd::seq_lib::to_multiset_build(out_before, value);
            vstd::seq_lib::to_multiset_remove(work_before, min_idx as int);
            vstd::seq_lib::to_multiset_contains(work_before, value);
            assert(out@ == out_before.push(value));
            assert(work@ == work_before.remove(min_idx as int));
            assert(work_before.to_multiset().count(value) > 0) by {
                assert(work_before.contains(value));
            }
            assert_multisets_equal!(out@.to_multiset().add(work@.to_multiset()),
                v@.to_multiset());
        }
    }
    out
}

/// Two coordinates within one cell size of each other land in the same or
/// in adjacent cells; the 3x3x3 block around a query therefore covers every
/// particle within the cell-size radius.
pub proof fn lemma_adjacent_cells(x: int, y: int, cs: int)
    requires
        cs >= 1,
        -CELL_OFFSET <= x <= CELL_OFFSET,
        -CELL_OFFSET <= y <= CELL_OFFSET,
        -cs <= x - y <= cs,
    ensures
        -1 <= cell_of_sp(x, cs) - cell_of_sp(y, cs) <= 1,
{
    let a = x + CELL_OFFSET;
    let b = y + CELL_OFFSET;
    vstd::arithmetic::div_mod::lemma_div_is_ordered(b - cs, a, cs);
    vstd::arithmetic::div_mod::lemma_div_is_ordered(a, b + cs, cs);
    vstd::arithmetic::div_mod::lemma_div_is_ordered(b, a + cs, cs);
    vstd::arithmetic::div_mod::lemma_div_is_ordered(a - cs, b, cs);
    lemma_div_shift_one(a, cs);
    lemma_div_shift_one(b, cs);
    lemma_div_shift_down(a, cs);
    lemma_div_shift_down(b, cs);
}

/// Shifting the numerator up by the denominator adds one to the quotient.
proof fn lemma_div_shift_one(a: int, cs: int)
    requires
        cs >= 1,
    ensures
        (a + cs) / cs == a / cs + 1,
{
    vstd::arithmetic::div_mod::lemma_fundamental_div_mod(a, cs);
    assert(a + cs == (a / cs + 1) * cs + a % cs) by (nonlinear_arith)
        requires a == cs * (a / cs) + a % cs;
    vstd::arithmetic::div_mod::lemma_fundamental_div_mod_converse(
        a + cs, cs, a / cs + 1, a % cs);
}

/// A shifted in-range coordinate lands in a bounded cell index.
proof fn lemma_cell_range(x: int, cs: int)
    requires
        cs >= 1,
        -CELL_OFFSET <= x <= CELL_OFFSET,
    ensures
        0 <= cell_of_sp(x, cs) <= 2 * CELL_OFFSET,
{
    vstd::arithmetic::div_mod::lemma_div_pos_is_pos(x + CELL_OFFSET, cs);
    vstd::arithmetic::div_mod::lemma_div_is_ordered_by_denominator(x + CELL_OFFSET, 1, cs);
}

/// Shifting the numerator down by the denominator subtracts one.
proof fn lemma_div_shift_down(a: int, cs: int)
    requires
        cs >= 1,
    ensures
        (a - cs) / cs == a / cs - 1,
{
    vstd::arithmetic::div_mod::lemma_fundamental_div_mod(a, cs);
    assert(a - cs == (a / cs - 1) * cs + a % cs) by (nonlinear_arith)
        requires a == cs * (a / cs) + a % cs;
    vstd::arithmetic::div_mod::lemma_fundamental_div_mod_converse(
        a - cs, cs, a / cs - 1, a % cs);
}

} // verus!
