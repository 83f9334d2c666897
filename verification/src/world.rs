use vstd::prelude::*;

use rayon::iter::ParallelIterator;
use rayon::slice::ParallelSliceMut;

verus! {

use crate::cell::{
    Cell, CubeCell, Index, cell_step, flat_index, live_neighbours, live_neighbours_upto,
    lemma_step_changes_cell, HEALTH, MIN_HEALTH,
};
use crate::rules::{clone_vec_copy, default_neighbours, default_offsets, ConfigError, Rules};

/// The whole grid: the shared immutable configuration and the flattened
/// sequence of cells, kept in row-major flattening order.
#[derive(Debug, PartialEq)]
pub struct World {
    pub rules: Rules,
    pub cells: Vec<CubeCell>,
}

/// Every coordinate triple of the cube finds, at its flattened position, a
/// cell that stores exactly that triple as its index.
pub open spec fn cells_indexed(cells: Seq<CubeCell>, dims: u16) -> bool {
    forall|a: int, b: int, c: int|
        0 <= a < dims && 0 <= b < dims && 0 <= c < dims
            && #[trigger] flat_index(a, b, c, dims as int) < cells.len()
            ==> cells[flat_index(a, b, c, dims as int)].index == (a as u16, b as u16, c as u16)
}

/// Cells as construction leaves them: cleared neighbour counter, the default
/// decay threshold, and a randomised health below the default maximum.
pub open spec fn cells_fresh(cells: Seq<CubeCell>) -> bool {
    forall|p: int|
        0 <= p < cells.len() ==> (#[trigger] cells[p]).neighbours == 0
            && cells[p].health.decay_ticks == MIN_HEALTH && cells[p].health.health_ticks < HEALTH
}

/// Observational equality of two worlds: the same configuration content and
/// the same cells in the same order.
pub open spec fn world_eq(a: World, b: World) -> bool {
    &&& a.rules.dims == b.rules.dims
    &&& a.rules.neighbours@ == b.rules.neighbours@
    &&& a.rules.offsets@ == b.rules.offsets@
    &&& a.cells@ == b.cells@
}

/// The exact next generation: every cell stepped against the frozen snapshot
/// of the prior one.
pub open spec fn world_step(rules: Rules, cells: Seq<CubeCell>) -> Seq<CubeCell> {
    Seq::new(cells.len(), |p: int| cell_step(cells[p], rules, cells))
}

/// Row-major flattening lands inside `[0, dims^3)` for every in-grid triple.
pub proof fn lemma_flat_index_bounds(i: int, j: int, k: int, dims: int)
    requires
        0 <= i < dims,
        0 <= j < dims,
        0 <= k < dims,
    ensures
        0 <= flat_index(i, j, k, dims) < dims * dims * dims,
{
    assert(0 <= i * dims * dims + j * dims + k < dims * dims * dims) by (nonlinear_arith)
        requires
            0 <= i < dims,
            0 <= j < dims,
            0 <= k < dims,
    ;
}

/// Row-major flattening is one-to-one on the cube.
pub proof fn lemma_flat_index_injective(
    i1: int,
    j1: int,
    k1: int,
    i2: int,
    j2: int,
    k2: int,
    dims: int,
)
    requires
        0 <= i1 < dims,
        0 <= j1 < dims,
        0 <= k1 < dims,
        0 <= i2 < dims,
        0 <= j2 < dims,
        0 <= k2 < dims,
        flat_index(i1, j1, k1, dims) == flat_index(i2, j2, k2, dims),
    ensures
        i1 == i2 && j1 == j2 && k1 == k2,
{
    assert(i1 == i2 && j1 == j2 && k1 == k2) by (nonlinear_arith)
        requires
            0 <= i1 < dims,
            0 <= j1 < dims,
            0 <= k1 < dims,
            0 <= i2 < dims,
            0 <= j2 < dims,
            0 <= k2 < dims,
            i1 * dims * dims + j1 * dims + k1 == i2 * dims * dims + j2 * dims + k2,
    ;
}

/// Relies on rayon's `par_chunks_mut` and `for_each`: the chunks are disjoint
/// pieces that together cover the slice, and the closure runs exactly once on
/// every element; the closure itself only calls the verified
/// `CubeCell::update` against the shared rules and the frozen snapshot, whose
/// contract pins each stepped cell.
#[verifier::external_body]
fn par_step_cells(cells: &mut Vec<CubeCell>, rules: &Rules, snapshot: &Vec<CubeCell>, chunk_size: usize)
    requires
        chunk_size >= 1,
        rules.offsets@.len() <= 255,
    ensures
        final(cells)@.len() == old(cells)@.len(),
        forall|p: int|
            0 <= p < old(cells)@.len() ==> final(cells)@[p] == cell_step(
                old(cells)@[p],
                *rules,
                snapshot@,
            ),
{
    cells.par_chunks_mut(chunk_size).for_each(|chunk| {
        for cell in chunk.iter_mut() {
            cell.update(rules, snapshot);
        }
    });
}

impl World {
    /// The grid invariants: a well-formed configuration, exactly
    /// `dims^3` cells, every cell at the flattened position of its stored
    /// index, and every cell's health counter valid.
    pub open spec fn wf(self) -> bool {
        &&& self.rules.wf()
        &&& self.cells@.len() == (self.rules.dims as int) * (self.rules.dims as int) * (
        self.rules.dims as int)
        &&& cells_indexed(self.cells@, self.rules.dims)
        &&& forall|p: int| 0 <= p < self.cells@.len() ==> (#[trigger] self.cells@[p]).wf()
    }

    /// Builds the (previous, current) pair: a grid of `dims^3` cells in
    /// flattening order, each seeded with a randomised health, and an
    /// identical second buffer so the caller holds both before the first
    /// update.
    pub fn new(dims: u16) -> (r: Result<(World, World), ConfigError>)
        requires
            dims * dims * dims <= usize::MAX,
        ensures
            r is Ok <==> dims > 0,
            dims == 0 ==> r == Err::<(World, World), ConfigError>(ConfigError::ZeroDims),
            r matches Ok(pair) ==> {
                &&& world_eq(pair.0, pair.1)
                &&& pair.0.wf()
                &&& pair.1.wf()
                &&& pair.0.rules.dims == dims
                &&& pair.0.rules.neighbours@ == default_neighbours()
                &&& pair.0.rules.offsets@ == default_offsets()
                &&& pair.0.cells@.len() == dims * dims * dims
                &&& cells_fresh(pair.0.cells@)
            },
    {
        let rules = match Rules::new(dims) {
            Ok(rules) => rules,
            Err(e) => {
                return Err(e);
            },
        };
        let mut cells: Vec<CubeCell> = Vec::new();
        let mut i: u16 = 0;
        while i < dims
            invariant
                i <= dims,
                dims * dims * dims <= usize::MAX,
                rules.dims == dims,
                rules.neighbours@ == default_neighbours(),
                rules.offsets@ == default_offsets(),
                cells@.len() == (i as int) * (dims as int) * (dims as int),
                cells_indexed(cells@, dims),
                cells_fresh(cells@),
            decreases dims - i,
        {
            let mut j: u16 = 0;
            while j < dims
                invariant
                    i < dims,
                    j <= dims,
                    dims * dims * dims <= usize::MAX,
                    rules.dims == dims,
                    rules.neighbours@ == default_neighbours(),
                    rules.offsets@ == default_offsets(),
                    cells@.len() == (i as int) * (dims as int) * (dims as int) + (j as int) * (
                    dims as int),
                    cells_indexed(cells@, dims),
                    cells_fresh(cells@),
                decreases dims - j,
            {
                let mut k: u16 = 0;
                while k < dims
                    invariant
                        i < dims,
                        j < dims,
                        k <= dims,
                        dims * dims * dims <= usize::MAX,
                        rules.dims == dims,
                        rules.neighbours@ == default_neighbours(),
                        rules.offsets@ == default_offsets(),
                        cells@.len() == flat_index(i as int, j as int, k as int, dims as int),
                        cells_indexed(cells@, dims),
                        cells_fresh(cells@),
                    decreases dims - k,
                {
                    proof {
                        lemma_flat_index_bounds(i as int, j as int, k as int, dims as int);
                    }
                    let mut cell = CubeCell::new((i, j, k));
                    cell.randomize_health();
                    cells.push(cell);
                    proof {
                        let d = dims as int;
                        assert forall|a: int, b: int, c: int|
                            0 <= a < dims && 0 <= b < dims && 0 <= c < dims
                                && #[trigger] flat_index(a, b, c, d) < cells@.len()
                            implies cells@[flat_index(a, b, c, d)].index == (
                            a as u16,
                            b as u16,
                            c as u16,
                        ) by {
                            if flat_index(a, b, c, d) + 1 == cells@.len() {
                                lemma_flat_index_injective(
                                    a,
                                    b,
                                    c,
                                    i as int,
                                    j as int,
                                    k as int,
                                    d,
                                );
                            }
                        }
                    }
                    k = k + 1;
                }
                proof {
                    assert((i as int) * (dims as int) * (dims as int) + (j as int) * (dims as int)
                        + (dims as int) == (i as int) * (dims as int) * (dims as int) + ((j
                        + 1) as int) * (dims as int)) by (nonlinear_arith);
                }
                j = j + 1;
            }
            proof {
                assert((i as int) * (dims as int) * (dims as int) + (dims as int) * (dims as int)
                    == ((i + 1) as int) * (dims as int) * (dims as int)) by (nonlinear_arith);
            }
            i = i + 1;
        }
        let previous = World { rules, cells };
        let current = previous.clone();
        Ok((previous, current))
    }

    /// Advances this world by one generation using a task count of eight.
    pub fn update(&mut self, previous: &mut World)
        requires
            old(self).rules.offsets@.len() <= 255,
        ensures
            world_eq(*final(previous), *old(self)),
            final(self).rules.dims == old(self).rules.dims,
            final(self).rules.neighbours@ == old(self).rules.neighbours@,
            final(self).rules.offsets@ == old(self).rules.offsets@,
            final(self).cells@ == world_step(old(self).rules, old(self).cells@),
            old(self).wf() ==> final(self).wf(),
    {
        self.update_with_tasks(previous, 8)
    }

    /// Advances this world by one generation. `previous` is first overwritten
    /// with the exact pre-update state; every cell is then stepped against
    /// that frozen snapshot, in contiguous disjoint chunks sized for
    /// `task_count` parallel tasks (never smaller than four cells). The
    /// committed generation is a function of the rules and the prior cells
    /// alone: the task count never shows in the result.
    pub fn update_with_tasks(&mut self, previous: &mut World, task_count: usize)
        requires
            task_count >= 1,
            old(self).rules.offsets@.len() <= 255,
        ensures
            world_eq(*final(previous), *old(self)),
            final(self).rules.dims == old(self).rules.dims,
            final(self).rules.neighbours@ == old(self).rules.neighbours@,
            final(self).rules.offsets@ == old(self).rules.offsets@,
            final(self).cells@ == world_step(old(self).rules, old(self).cells@),
            old(self).wf() ==> final(self).wf(),
    {
        *previous = self.clone();
        let mut chunk_size: usize = self.cells.len() / task_count;
        if chunk_size < 4 {
            chunk_size = 4;
        }
        par_step_cells(&mut self.cells, &self.rules, &previous.cells, chunk_size);
        proof {
            assert(self.cells@ =~= world_step(old(self).rules, old(self).cells@));
            if old(self).wf() {
                let d = self.rules.dims as int;
                assert forall|a: int, b: int, c: int|
                    0 <= a < self.rules.dims && 0 <= b < self.rules.dims && 0 <= c
                        < self.rules.dims && #[trigger] flat_index(a, b, c, d) < self.cells@.len()
                    implies self.cells@[flat_index(a, b, c, d)].index == (
                    a as u16,
                    b as u16,
                    c as u16,
                ) by {
                    let q = flat_index(a, b, c, d);
                    assert(self.cells@[q] == cell_step(
                        old(self).cells@[q],
                        old(self).rules,
                        old(self).cells@,
                    ));
                }
                assert forall|p: int| 0 <= p < self.cells@.len() implies (
                #[trigger] self.cells@[p]).wf() by {
                    assert(self.cells@[p] == cell_step(
                        old(self).cells@[p],
                        old(self).rules,
                        old(self).cells@,
                    ));
                }
            }
        }
    }
}

impl Clone for World {
    /// A deep copy: same configuration content, same cells in the same order.
    fn clone(&self) -> (r: Self)
        ensures
            world_eq(r, *self),
    {
        World { rules: self.rules.clone(), cells: clone_vec_copy(&self.cells) }
    }
}

/// Counts live neighbours the same wherever the configuration's content is
/// the same: only the edge length and the offsets matter to a scan.
pub proof fn lemma_live_neighbours_congruent(
    index: Index,
    r1: Rules,
    r2: Rules,
    cells: Seq<CubeCell>,
    n: int,
)
    requires
        r1.dims == r2.dims,
        r1.offsets@ == r2.offsets@,
    ensures
        live_neighbours_upto(index, r1, cells, n) == live_neighbours_upto(index, r2, cells, n),
    decreases n,
{
    if n > 0 {
        lemma_live_neighbours_congruent(index, r1, r2, cells, n - 1);
    }
}

/// Determinism law: the committed generation depends only on the
/// configuration's content and the prior cells. Two worlds that agree on
/// edge length, sustaining set, offsets and cells commit the same next
/// generation, whatever task count either update used.
pub proof fn lemma_step_deterministic(r1: Rules, r2: Rules, cells: Seq<CubeCell>)
    requires
        r1.dims == r2.dims,
        r1.neighbours@ == r2.neighbours@,
        r1.offsets@ == r2.offsets@,
    ensures
        world_step(r1, cells) == world_step(r2, cells),
{
    assert forall|p: int| 0 <= p < cells.len() implies world_step(r1, cells)[p] == world_step(
        r2,
        cells,
    )[p] by {
        lemma_live_neighbours_congruent(cells[p].index, r1, r2, cells, r1.offsets@.len() as int);
    }
    assert(world_step(r1, cells) =~= world_step(r2, cells));
}

/// Non-idempotence law: when at least one cell's neighbour count changes its
/// health this tick, the committed generation differs from the prior one.
pub proof fn lemma_step_changes_world(rules: Rules, cells: Seq<CubeCell>, p: int)
    requires
        0 <= p < cells.len(),
        ({
            let n = live_neighbours(cells[p].index, rules, cells) as u8;
            (rules.sustains_spec(n) && cells[p].health.health_ticks < 255) || (
            !rules.sustains_spec(n) && cells[p].health.health_ticks > 0)
        }),
    ensures
        world_step(rules, cells) != cells,
{
    lemma_step_changes_cell(cells[p], rules, cells);
    assert(world_step(rules, cells)[p] != cells[p]);
}

} // verus!
