use vstd::prelude::*;

verus! {

/// Why a configuration was rejected at construction time.
#[derive(Debug, Clone, Copy, PartialEq, Eq)]
pub enum ConfigError {
    /// The grid edge length was zero.
    ZeroDims,
    /// The health decay threshold was zero.
    ZeroDecayTicks,
}

/// The neighbour counts that sustain or revive a cell under the default ruleset.
pub open spec fn default_neighbours() -> Seq<u8> {
    seq![3u8, 5u8]
}

/// The six axis-aligned unit offsets: the von Neumann neighbourhood.
pub open spec fn default_offsets() -> Seq<(i8, i8, i8)> {
    seq![
        (1i8, 0i8, 0i8),
        (-1i8, 0i8, 0i8),
        (0i8, 1i8, 0i8),
        (0i8, -1i8, 0i8),
        (0i8, 0i8, 1i8),
        (0i8, 0i8, -1i8),
    ]
}

/// Immutable automaton configuration: the cube's edge length, the set of
/// neighbour counts that sustain or revive a cell, and the adjacency offsets
/// that define which cells count as neighbours. Never mutated after
/// construction; shared read-only across the grid and across update tasks.
#[derive(Debug, PartialEq)]
pub struct Rules {
    /// Edge length of the cubic grid, in cells; always positive.
    pub dims: u16,
    /// Neighbour counts that sustain or revive a cell.
    pub neighbours: Vec<u8>,
    /// Signed 3D deltas defining the adjacency neighbourhood.
    pub offsets: Vec<(i8, i8, i8)>,
}

impl Rules {
    /// A well-formed configuration: a positive edge length, and few enough
    /// offsets that a scan's neighbour count always fits the per-cell counter.
    pub open spec fn wf(self) -> bool {
        &&& self.dims > 0
        &&& self.offsets@.len() <= 255
    }

    /// Whether `n` is a neighbour count that sustains or revives a cell.
    pub open spec fn sustains_spec(self, n: u8) -> bool {
        self.neighbours@.contains(n)
    }

    /// Validates the edge length and populates the default ruleset around it.
    pub fn new(dims: u16) -> (r: Result<Rules, ConfigError>)
        ensures
            r is Ok <==> dims > 0,
            dims == 0 ==> r == Err::<Rules, ConfigError>(ConfigError::ZeroDims),
            r matches Ok(rules) ==> rules.dims == dims
                && rules.neighbours@ == default_neighbours()
                && rules.offsets@ == default_offsets()
                && rules.wf(),
    {
        if dims == 0 {
            Err(ConfigError::ZeroDims)
        } else {
            let defaults = Rules::default();
            Ok(Rules { dims, neighbours: defaults.neighbours, offsets: defaults.offsets })
        }
    }

    /// Membership test against the sustaining set.
    pub fn sustains(&self, n: u8) -> (r: bool)
        ensures
            r == self.sustains_spec(n),
    {
        let mut i: usize = 0;
        while i < self.neighbours.len()
            invariant
                i <= self.neighbours@.len(),
                forall|j: int| 0 <= j < i ==> self.neighbours@[j] != n,
            decreases self.neighbours@.len() - i,
        {
            if self.neighbours[i] == n {
                proof {
                    assert(self.neighbours@[i as int] == n);
                }
                return true;
            }
            i += 1;
        }
        false
    }
}

impl Clone for Rules {
    /// A deep copy with the same edge length, sustaining set and offsets.
    fn clone(&self) -> (r: Self)
        ensures
            r.dims == self.dims,
            r.neighbours@ == self.neighbours@,
            r.offsets@ == self.offsets@,
    {
        Rules {
            dims: self.dims,
            neighbours: clone_vec_copy(&self.neighbours),
            offsets: clone_vec_copy(&self.offsets),
        }
    }
}

impl Default for Rules {
    /// The default ruleset: a 6-cell edge, counts {3, 5} sustaining, and the
    /// von Neumann neighbourhood.
    fn default() -> (r: Self)
        ensures
            r.dims == 6,
            r.neighbours@ == default_neighbours(),
            r.offsets@ == default_offsets(),
            r.wf(),
    {
        let mut neighbours: Vec<u8> = Vec::new();
        neighbours.push(3);
        neighbours.push(5);
        let mut offsets: Vec<(i8, i8, i8)> = Vec::new();
        offsets.push((1, 0, 0));
        offsets.push((-1, 0, 0));
        offsets.push((0, 1, 0));
        offsets.push((0, -1, 0));
        offsets.push((0, 0, 1));
        offsets.push((0, 0, -1));
        proof {
            assert(neighbours@ =~= default_neighbours());
            assert(offsets@ =~= default_offsets());
        }
        Rules { dims: 6, neighbours, offsets }
    }
}

/// An element-for-element copy of a vector of plain values.
pub(crate) fn clone_vec_copy<T: Copy>(v: &Vec<T>) -> (r: Vec<T>)
    ensures
        r@ == v@,
{
    let mut r: Vec<T> = Vec::new();
    let mut i: usize = 0;
    while i < v.len()
        invariant
            i <= v@.len(),
            r@ =~= v@.subrange(0, i as int),
        decreases v@.len() - i,
    {
        r.push(v[i]);
        i += 1;
    }
    proof {
        assert(r@ =~= v@);
    }
    r
}

} // verus!
