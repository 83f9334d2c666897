use vstd::prelude::*;

use rand::Rng;

verus! {

use crate::rules::{ConfigError, Rules};

/// A cell's fixed grid position: an ordered triple with every component in
/// `[0, dims)`.
pub type Index = (u16, u16, u16);

/// Default upper bound (exclusive) of a freshly randomised health counter.
pub const HEALTH: u8 = 90;

/// Default decay threshold of a grid cell's health counter.
pub const MIN_HEALTH: u8 = 40;

/// Tri-state classification of a cell's health.
#[derive(Debug, Clone, Copy, PartialEq, Eq)]
pub enum CellStatus {
    Alive,
    Decaying,
    Dead,
}

/// Health magnitudes that a presentation layer may map to an intensity,
/// reported beside the classification so no caller reads internal counters.
#[derive(Debug, Clone, Copy, PartialEq, Eq)]
pub struct HealthStatus {
    pub max_health: u8,
    pub curr_health: u8,
    pub min_health: u8,
}

/// Saturating addition on the health counter's representation.
pub open spec fn sat_add_u8(a: u8, b: u8) -> u8 {
    if a + b > 255 {
        255u8
    } else {
        (a + b) as u8
    }
}

/// Per-cell bounded hysteresis counter: `health_ticks` moves by one per
/// generation and never wraps; `decay_ticks` is the fixed threshold that
/// separates Alive from Decaying.
#[derive(Debug, Clone, Copy, PartialEq, Eq)]
pub struct Health {
    pub health_ticks: u8,
    pub decay_ticks: u8,
}

/// The classification the health counter derives: Alive strictly above the decay
/// threshold, Dead exactly at zero, Decaying in between.
pub open spec fn health_status(h: Health) -> CellStatus {
    if h.health_ticks > h.decay_ticks {
        CellStatus::Alive
    } else if h.health_ticks > 0 {
        CellStatus::Decaying
    } else {
        CellStatus::Dead
    }
}

/// One tick of the hysteresis counter: a sustaining neighbour count raises it
/// by one (saturating, and also from zero, which is how a dead cell revives);
/// any other count lowers it by one down to a floor of zero.
pub open spec fn health_step(h: Health, rules: Rules, neighbours: u8) -> Health {
    if rules.sustains_spec(neighbours) {
        if h.health_ticks < 255 {
            Health { health_ticks: (h.health_ticks + 1) as u8, decay_ticks: h.decay_ticks }
        } else {
            h
        }
    } else if h.health_ticks >= 1 {
        Health { health_ticks: (h.health_ticks - 1) as u8, decay_ticks: h.decay_ticks }
    } else {
        h
    }
}

impl Health {
    /// A valid counter: the decay threshold is positive.
    pub open spec fn wf(self) -> bool {
        self.decay_ticks > 0
    }

    /// Validates the decay threshold and seeds the counter at
    /// `base + decay_ticks`, clamped at the representational maximum.
    pub fn new(base: u8, decay_ticks: u8) -> (r: Result<Health, ConfigError>)
        ensures
            r is Ok <==> decay_ticks > 0,
            decay_ticks == 0 ==> r == Err::<Health, ConfigError>(ConfigError::ZeroDecayTicks),
            r matches Ok(h) ==> h.health_ticks == sat_add_u8(base, decay_ticks)
                && h.decay_ticks == decay_ticks
                && h.wf(),
    {
        if decay_ticks == 0 {
            Err(ConfigError::ZeroDecayTicks)
        } else {
            let health_ticks: u8 = if base <= 255 - decay_ticks {
                base + decay_ticks
            } else {
                255
            };
            Ok(Health { health_ticks, decay_ticks })
        }
    }

    /// Advances the counter by one generation given this tick's neighbour
    /// count.
    pub fn update(&mut self, rules: &Rules, neighbours: u8)
        ensures
            *final(self) == health_step(*old(self), *rules, neighbours),
    {
        if rules.sustains(neighbours) {
            if self.health_ticks < 255 {
                self.health_ticks = self.health_ticks + 1;
            }
        } else if self.health_ticks >= 1 {
            self.health_ticks = self.health_ticks - 1;
        }
    }

    /// Strictly above the decay threshold.
    pub fn is_alive(&self) -> (r: bool)
        ensures
            r == (self.health_ticks > self.decay_ticks),
            r == (health_status(*self) == CellStatus::Alive),
    {
        self.health_ticks > self.decay_ticks
    }

    /// Positive but no higher than the decay threshold.
    pub fn is_decaying(&self) -> (r: bool)
        ensures
            r == (0 < self.health_ticks <= self.decay_ticks),
            r == (health_status(*self) == CellStatus::Decaying),
    {
        self.health_ticks > 0 && self.health_ticks <= self.decay_ticks
    }

    /// Exactly zero health.
    pub fn is_dead(&self) -> (r: bool)
        ensures
            r == (self.health_ticks == 0),
            r == (health_status(*self) == CellStatus::Dead),
    {
        self.health_ticks == 0
    }
}

/// Row-major flattening of a 3D coordinate: `i*dims^2 + j*dims + k`.
pub open spec fn flat_index(i: int, j: int, k: int, dims: int) -> int {
    i * dims * dims + j * dims + k
}

/// The coordinate an offset points at, obtained by component-wise subtraction
/// from the cell's own position (the offset set holds both signs, so the
/// neighbourhood stays symmetric).
pub open spec fn scan_target(index: Index, off: (i8, i8, i8)) -> (int, int, int) {
    (index.0 - off.0, index.1 - off.1, index.2 - off.2)
}

/// Whether a candidate coordinate lies inside the cubic grid on every axis;
/// there is no wraparound, so boundary cells have strictly fewer neighbours.
pub open spec fn in_grid(p: (int, int, int), dims: int) -> bool {
    0 <= p.0 < dims && 0 <= p.1 < dims && 0 <= p.2 < dims
}

/// Whether one offset contributes to a cell's neighbour count: its target is
/// inside the grid, present in the snapshot, and Alive there.
pub open spec fn offset_hits_live(
    index: Index,
    off: (i8, i8, i8),
    rules: Rules,
    cells: Seq<CubeCell>,
) -> bool {
    let p = scan_target(index, off);
    let pos = flat_index(p.0, p.1, p.2, rules.dims as int);
    &&& in_grid(p, rules.dims as int)
    &&& pos < cells.len()
    &&& health_status(cells[pos].health) == CellStatus::Alive
}

/// Live neighbours found by the first `n` offsets of the scan.
pub open spec fn live_neighbours_upto(
    index: Index,
    rules: Rules,
    cells: Seq<CubeCell>,
    n: int,
) -> nat
    decreases n,
{
    if n <= 0 {
        0
    } else {
        live_neighbours_upto(index, rules, cells, n - 1)
            + if offset_hits_live(index, rules.offsets@[n - 1], rules, cells) {
                1nat
            } else {
                0nat
            }
    }
}

/// Live neighbours of the cell at `index`, scanned against the frozen
/// previous-generation snapshot under the configured offsets.
pub open spec fn live_neighbours(index: Index, rules: Rules, cells: Seq<CubeCell>) -> nat {
    live_neighbours_upto(index, rules, cells, rules.offsets@.len() as int)
}

/// A scan over `n` offsets finds at most `n` live neighbours.
pub proof fn lemma_live_neighbours_upto_le(
    index: Index,
    rules: Rules,
    cells: Seq<CubeCell>,
    n: int,
)
    requires
        n >= 0,
    ensures
        live_neighbours_upto(index, rules, cells, n) <= n,
    decreases n,
{
    if n > 0 {
        lemma_live_neighbours_upto_le(index, rules, cells, n - 1);
    }
}

/// The concrete grid cell: a transient neighbour counter recomputed every
/// generation, a hysteresis health counter, and a fixed identifying position.
#[derive(Debug, Clone, Copy, PartialEq, Eq)]
pub struct CubeCell {
    pub neighbours: u8,
    pub health: Health,
    pub index: Index,
}

/// The cell that construction from a position yields.
pub open spec fn cube_cell_init(index: Index) -> CubeCell {
    CubeCell {
        neighbours: 0,
        health: Health {
            health_ticks: sat_add_u8(HEALTH, MIN_HEALTH),
            decay_ticks: MIN_HEALTH,
        },
        index,
    }
}

/// The exact cell that one generational step produces from the frozen
/// snapshot: the neighbour counter holds this tick's scan and the health
/// counter has taken one step on it; the position never changes.
pub open spec fn cell_step(c: CubeCell, rules: Rules, prev: Seq<CubeCell>) -> CubeCell {
    let n = live_neighbours(c.index, rules, prev) as u8;
    CubeCell { neighbours: n, health: health_step(c.health, rules, n), index: c.index }
}

impl CubeCell {
    /// A valid cell: its health counter is well formed.
    pub open spec fn wf(self) -> bool {
        self.health.wf()
    }

    /// Builds the cell at `index` with the default initial health.
    pub fn new(index: Index) -> (r: CubeCell)
        ensures
            r == cube_cell_init(index),
            r.wf(),
    {
        CubeCell {
            neighbours: 0,
            health: Health { health_ticks: HEALTH + MIN_HEALTH, decay_ticks: MIN_HEALTH },
            index,
        }
    }

    /// The neighbour scan: for each configured offset, bound-check the target
    /// coordinate, look it up in the previous-generation snapshot, and count
    /// it when it is Alive there. Offsets that land outside the grid or
    /// beyond the snapshot are skipped.
    pub fn update_neighbours(&mut self, rules: &Rules, cells: &Vec<CubeCell>)
        requires
            old(self).neighbours + rules.offsets@.len() <= 255,
        ensures
            final(self).index == old(self).index,
            final(self).health == old(self).health,
            final(self).neighbours == old(self).neighbours
                + live_neighbours(old(self).index, *rules, cells@),
    {
        let mut oi: usize = 0;
        while oi < rules.offsets.len()
            invariant
                oi <= rules.offsets@.len(),
                old(self).neighbours + rules.offsets@.len() <= 255,
                self.index == old(self).index,
                self.health == old(self).health,
                self.neighbours == old(self).neighbours
                    + live_neighbours_upto(old(self).index, *rules, cells@, oi as int),
            decreases rules.offsets@.len() - oi,
        {
            proof {
                lemma_live_neighbours_upto_le(old(self).index, *rules, cells@, oi as int);
            }
            let off = rules.offsets[oi];
            let ti: i32 = self.index.0 as i32 - off.0 as i32;
            let tj: i32 = self.index.1 as i32 - off.1 as i32;
            let tk: i32 = self.index.2 as i32 - off.2 as i32;
            let d: i32 = rules.dims as i32;
            if 0 <= ti && ti < d && 0 <= tj && tj < d && 0 <= tk && tk < d {
                let du: u64 = rules.dims as u64;
                let iu: u64 = ti as u64;
                let ju: u64 = tj as u64;
                let ku: u64 = tk as u64;
                proof {
                    assert(iu * du < 0x100000000u64) by (nonlinear_arith)
                        requires
                            iu < du,
                            du <= 0x10000u64,
                    ;
                    assert(iu * du * du < 0x1000000000000u64) by (nonlinear_arith)
                        requires
                            iu < du,
                            du <= 0x10000u64,
                    ;
                    assert(ju * du < 0x100000000u64) by (nonlinear_arith)
                        requires
                            ju < du,
                            du <= 0x10000u64,
                    ;
                }
                let pos64: u64 = iu * du * du + ju * du + ku;
                if pos64 < cells.len() as u64 {
                    let pos: usize = pos64 as usize;
                    let st = cells[pos].status();
                    match st.0 {
                        CellStatus::Alive => {
                            self.neighbours = self.neighbours + 1;
                        },
                        _ => {},
                    }
                }
            }
            oi = oi + 1;
        }
    }

    /// Applies one health tick using the neighbour count just scanned.
    pub fn update_health(&mut self, rules: &Rules)
        ensures
            final(self).index == old(self).index,
            final(self).neighbours == old(self).neighbours,
            final(self).health == health_step(old(self).health, *rules, old(self).neighbours),
    {
        let n: u8 = self.neighbours;
        self.health.update(rules, n);
    }

    /// Clears the transient neighbour counter before a new scan.
    pub fn clear_neighbours(&mut self)
        ensures
            final(self).index == old(self).index,
            final(self).health == old(self).health,
            final(self).neighbours == 0,
    {
        self.neighbours = 0;
    }
}

/// The capability set every cell variant offers: construction from a grid
/// position, randomised initial health, one generational step against a
/// frozen snapshot, and a pure status report.
pub trait Cell: Sized {
    /// The grid position that identifies the cell.
    spec fn index_spec(&self) -> Index;

    /// The tri-state classification of the cell's current health.
    spec fn classify(&self) -> CellStatus;

    /// What a generational step requires of the configuration.
    spec fn step_req(&self, rules: Rules) -> bool;

    /// The exact cell that one generational step produces.
    spec fn step(&self, rules: Rules, prev: Seq<Self>) -> Self;

    /// How a randomised cell relates to what it was before.
    spec fn randomized(pre: Self, post: Self) -> bool;

    /// Builds the cell that sits at `index`.
    fn from_index(index: Index) -> (r: Self)
        ensures
            r.index_spec() == index,
    ;

    /// Draws a fresh initial health from a random source.
    fn randomize_health(&mut self)
        ensures
            Self::randomized(*old(self), *final(self)),
    ;

    /// Advances the cell by one generation, reading only the frozen
    /// previous-generation snapshot.
    fn update(&mut self, rules: &Rules, cells: &Vec<Self>)
        requires
            old(self).step_req(*rules),
        ensures
            *final(self) == old(self).step(*rules, cells@),
    ;

    /// Reports the classification, with the health magnitudes a presentation
    /// layer needs; a pure read.
    fn status(&self) -> (r: (CellStatus, HealthStatus))
        ensures
            r.0 == self.classify(),
    ;
}

/// Relies on rand's `thread_rng` and `Rng::gen_range`: a sample of the range
/// `0..max` lies below `max` (the call rejects an empty range, which the
/// precondition rules out); nothing finer is assumed of the draw.
#[verifier::external_body]
fn draw_health_below(max: u8) -> (r: u8)
    requires
        max > 0,
    ensures
        r < max,
{
    rand::thread_rng().gen_range(0..max)
}

impl Cell for CubeCell {
    open spec fn index_spec(&self) -> Index {
        self.index
    }

    open spec fn classify(&self) -> CellStatus {
        health_status(self.health)
    }

    open spec fn step_req(&self, rules: Rules) -> bool {
        rules.offsets@.len() <= 255
    }

    open spec fn step(&self, rules: Rules, prev: Seq<CubeCell>) -> CubeCell {
        cell_step(*self, rules, prev)
    }

    open spec fn randomized(pre: CubeCell, post: CubeCell) -> bool {
        &&& post.index == pre.index
        &&& post.neighbours == pre.neighbours
        &&& post.health.decay_ticks == pre.health.decay_ticks
        &&& post.health.health_ticks < HEALTH
    }

    fn from_index(index: Index) -> (r: Self) {
        CubeCell::new(index)
    }

    fn randomize_health(&mut self) {
        self.health.health_ticks = draw_health_below(HEALTH);
    }

    fn update(&mut self, rules: &Rules, cells: &Vec<CubeCell>) {
        self.clear_neighbours();
        self.update_neighbours(rules, cells);
        self.update_health(rules);
        proof {
            lemma_live_neighbours_upto_le(
                old(self).index,
                *rules,
                cells@,
                rules.offsets@.len() as int,
            );
        }
    }

    fn status(&self) -> (r: (CellStatus, HealthStatus)) {
        let magnitudes = HealthStatus {
            max_health: HEALTH,
            curr_health: self.health.health_ticks,
            min_health: MIN_HEALTH,
        };
        if self.health.is_alive() {
            (CellStatus::Alive, magnitudes)
        } else if self.health.is_decaying() {
            (CellStatus::Decaying, magnitudes)
        } else {
            (CellStatus::Dead, magnitudes)
        }
    }
}

/// The counter after `k` consecutive generations that all present the same
/// neighbour count.
pub open spec fn health_after_ticks(h: Health, rules: Rules, neighbours: u8, k: nat) -> Health
    decreases k,
{
    if k == 0 {
        h
    } else {
        health_step(health_after_ticks(h, rules, neighbours, (k - 1) as nat), rules, neighbours)
    }
}

/// Hysteresis law: under a non-sustaining count the counter falls by exactly
/// one per generation until it reaches zero and then stays there; under a
/// sustaining count it rises by exactly one per generation (also from zero)
/// until it saturates at the representational maximum. The decay threshold
/// never moves.
pub proof fn lemma_hysteresis(h: Health, rules: Rules, neighbours: u8, k: nat)
    ensures
        !rules.sustains_spec(neighbours) ==> health_after_ticks(h, rules, neighbours, k).health_ticks
            == if h.health_ticks >= k {
                h.health_ticks - k
            } else {
                0int
            },
        rules.sustains_spec(neighbours) ==> health_after_ticks(h, rules, neighbours, k).health_ticks
            == if h.health_ticks + k <= 255 {
                h.health_ticks + k
            } else {
                255int
            },
        health_after_ticks(h, rules, neighbours, k).decay_ticks == h.decay_ticks,
    decreases k,
{
    if k > 0 {
        lemma_hysteresis(h, rules, neighbours, (k - 1) as nat);
    }
}

/// Status boundary law: exactly at the decay threshold a cell is Decaying,
/// one above the threshold it is Alive, and at zero health it is Dead.
pub proof fn lemma_status_boundary(h: Health)
    requires
        h.wf(),
    ensures
        h.health_ticks == h.decay_ticks ==> health_status(h) == CellStatus::Decaying,
        h.health_ticks == h.decay_ticks + 1 ==> health_status(h) == CellStatus::Alive,
        h.health_ticks == 0 ==> health_status(h) == CellStatus::Dead,
{
}

/// A generational step moves every cell whose neighbour count changes its
/// health: a sustaining count away from saturation, or a non-sustaining count
/// above zero health, never leaves the cell as it was.
pub proof fn lemma_step_changes_cell(c: CubeCell, rules: Rules, prev: Seq<CubeCell>)
    requires
        ({
            let n = live_neighbours(c.index, rules, prev) as u8;
            (rules.sustains_spec(n) && c.health.health_ticks < 255)
                || (!rules.sustains_spec(n) && c.health.health_ticks > 0)
        }),
    ensures
        cell_step(c, rules, prev) != c,
{
    let n = live_neighbours(c.index, rules, prev) as u8;
    assert(cell_step(c, rules, prev).health.health_ticks != c.health.health_ticks);
}

} // verus!
