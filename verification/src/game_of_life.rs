//! Conway's Game of Life on a bit-packed square grid.
//!
//! A `World` owns the current packed state, the side length, the history
//! of every state seen so far, and a latched stability flag.  Each
//! `advance` rewrites every cell by Conway's rule against an unmodified
//! snapshot, then declares the world stable when the computed next state
//! has already occurred.

use vstd::prelude::*;

use num_bigint::BigUint;

use crate::biguint::biguint_bit;
use crate::biguint::biguint_clone;
use crate::biguint::biguint_eq;
use crate::biguint::biguint_nat;
use crate::biguint::biguint_set_bit;
use crate::grid::OVERPOPULATION_THRESHOLD;
use crate::grid::REPRODUCTION_TRIGGER;
use crate::grid::UNDERPOPULATION_THRESHOLD;
use crate::grid::bit_val;
use crate::grid::is_first_column;
use crate::grid::is_first_row;
use crate::grid::is_last_column;
use crate::grid::is_last_row;
use crate::grid::neighbor_count;
use crate::grid::next_state;
use crate::grid::next_state_upto;

verus! {

/// The largest accepted side length of the square world.
pub const MAX_WORLD_SIZE: u8 = 50;

/// Why a `World` could not be constructed.
#[derive(Clone, Copy, Debug, PartialEq, Eq, Structural)]
pub enum ConstructionError {
    /// The side length was less than 1.
    SizeTooSmall,
    /// The side length exceeded `MAX_WORLD_SIZE`.
    SizeTooLarge,
}

/// The abstract value of a `World`: the side length, the packed state as a
/// non-negative integer, the states seen so far in order (the seed first),
/// and the latched stability flag.
#[verifier::ext_equal]
pub struct WorldView {
    pub size: nat,
    pub state: nat,
    pub history: Seq<nat>,
    pub stable: bool,
}

/// A square Game of Life world, its state packed into one `BigUint`:
/// bit `i` (row-major) is 1 iff the cell at flattened position `i` is
/// alive.  Seed bits beyond `size * size` are accepted and kept; no valid
/// index ever addresses them, so they ride along unchanged.
pub struct World {
    world_size: u8,
    world: BigUint,
    states: Vec<BigUint>,
    stable: bool,
}

impl View for World {
    type V = WorldView;

    closed spec fn view(&self) -> WorldView {
        WorldView {
            size: self.world_size as nat,
            state: biguint_nat(self.world),
            history: self.states@.map_values(|b: BigUint| biguint_nat(b)),
            stable: self.stable,
        }
    }
}

/// The abstract effect of one `advance` call: nothing when already
/// stable; otherwise the next state is computed against the current one,
/// and either found in history (stability latches, nothing else moves) or
/// made current and appended to history.
pub open spec fn step_view(w: WorldView) -> WorldView {
    if w.stable {
        w
    } else {
        let nv = next_state(w.state, w.size);
        if w.history.contains(nv) {
            WorldView { stable: true, ..w }
        } else {
            WorldView { state: nv, history: w.history.push(nv), ..w }
        }
    }
}

/// The abstract view after `k` steps from `w`.
pub open spec fn run_view(w: WorldView, k: nat) -> WorldView
    decreases k,
{
    if k == 0 {
        w
    } else {
        step_view(run_view(w, (k - 1) as nat))
    }
}

/// Stability latches: a stable view is a fixed point of the step, so any
/// number of further steps changes neither state, history nor flag.
pub proof fn lemma_stable_is_latched(w: WorldView, k: nat)
    requires
        w.stable,
    ensures
        run_view(w, k) == w,
    decreases k,
{
    if k > 0 {
        lemma_stable_is_latched(w, (k - 1) as nat);
    }
}

/// The step never clears the stability flag: once stable, always stable.
pub proof fn lemma_stability_monotonic(w: WorldView)
    ensures
        w.stable ==> step_view(w).stable,
{
}

/// Determinism: the abstract step is a function of the view alone, so two
/// worlds built from the same seed and size stay identical, state,
/// history and flag alike, however many times both are advanced.
pub proof fn lemma_deterministic(w1: WorldView, w2: WorldView, k: nat)
    requires
        w1 == w2,
    ensures
        run_view(w1, k) == run_view(w2, k),
{
}

/// A still life stabilizes in one step with its state unchanged: when the
/// next state equals the current one and the current state is already in
/// history (as the seed always is), the step only latches the flag.
pub proof fn lemma_still_life_stabilizes(w: WorldView)
    requires
        !w.stable,
        next_state(w.state, w.size) == w.state,
        w.history.contains(w.state),
    ensures
        step_view(w) == (WorldView { stable: true, ..w }),
{
}

impl World {
    /// A well-formed world has a side length between 1 and
    /// `MAX_WORLD_SIZE`; `new` establishes this and every method keeps it.
    pub open spec fn wf(self) -> bool {
        1 <= self@.size <= MAX_WORLD_SIZE as nat
    }

    /// Builds a world from a seed state and a side length.  The seed is
    /// not measured against the size: excess high bits are kept but never
    /// addressed.
    pub fn new(seed: BigUint, world_size: u8) -> (result: Result<World, ConstructionError>)
        ensures
            world_size > MAX_WORLD_SIZE ==> result == Err::<World, _>(
                ConstructionError::SizeTooLarge,
            ),
            world_size < 1 ==> result == Err::<World, _>(ConstructionError::SizeTooSmall),
            1 <= world_size <= MAX_WORLD_SIZE ==> (result matches Ok(w) && w.wf() && w@ == (
            WorldView {
                size: world_size as nat,
                state: biguint_nat(seed),
                history: seq![biguint_nat(seed)],
                stable: false,
            })),
    {
        if world_size > MAX_WORLD_SIZE {
            return Err(ConstructionError::SizeTooLarge);
        }
        if world_size < 1 {
            return Err(ConstructionError::SizeTooSmall);
        }
        let world = biguint_clone(&seed);
        let mut states: Vec<BigUint> = Vec::new();
        states.push(seed);
        let w = World { world_size, world, states, stable: false };
        proof {
            assert(w@.history =~= seq![biguint_nat(seed)]);
        }
        Ok(w)
    }

    /// Returns the latched stability flag.
    pub fn is_stable(&self) -> (r: bool)
        ensures
            r == self@.stable,
    {
        self.stable
    }

    /// The bit of the current state at flattened position `index`, as 0
    /// or 1.
    pub fn get_cell(&self, index: u16) -> (r: u8)
        ensures
            r == bit_val(self@.state, index as nat),
    {
        if biguint_bit(&self.world, index as u64) {
            1
        } else {
            0
        }
    }

    /// The number of live cells among the up-to-8 neighbors of the cell
    /// at flattened position `index`, with boundary directions skipped by
    /// arithmetic on the flat index.
    pub fn count_nearby_cells(&self, index: u16) -> (r: u8)
        requires
            self.wf(),
            index < self@.size * self@.size,
        ensures
            r as nat == neighbor_count(self@.state, self@.size, index as nat),
    {
        proof {
            assert(self@.size * self@.size <= 2500) by (nonlinear_arith)
                requires
                    self@.size <= 50,
            ;
            assert(self@.size <= self@.size * self@.size && self@.size % self@.size == 0
                && 0nat % self@.size == 0) by (nonlinear_arith)
                requires
                    self@.size >= 1,
            ;
        }
        let mut cell_count: u8 = 0;
        let world_size: u16 = self.world_size as u16;

        let first_col = index % world_size == 0;
        let last_col = (index + 1) % world_size == 0;
        let first_row = index < world_size;
        let last_row = index > world_size * world_size - world_size;

        proof {
            assert(first_col == is_first_column(self@.size, index as nat));
            assert(last_col == is_last_column(self@.size, index as nat));
            assert(first_row == is_first_row(self@.size, index as nat));
            assert(last_row == is_last_row(self@.size, index as nat));
        }

        if !first_col {
            cell_count += self.get_cell(index - 1);
        }
        if !last_col {
            cell_count += self.get_cell(index + 1);
        }

        if !first_row {
            cell_count += self.get_cell(index - world_size);
            if !first_col {
                cell_count += self.get_cell(index - world_size - 1);
            }
            if !last_col {
                cell_count += self.get_cell(index - world_size + 1);
            }
        }

        if !last_row {
            cell_count += self.get_cell(index + world_size);
            if !first_col {
                cell_count += self.get_cell(index + world_size - 1);
            }
            if !last_col {
                cell_count += self.get_cell(index + world_size + 1);
            }
        }

        cell_count
    }

    /// Whether the given state value has already occurred.
    fn contains_state(&self, w: &BigUint) -> (r: bool)
        ensures
            r == self@.history.contains(biguint_nat(*w)),
    {
        let mut k: usize = 0;
        while k < self.states.len()
            invariant
                k <= self.states.len(),
                self@.history.len() == self.states.len(),
                forall|j: int| 0 <= j < k ==> self@.history[j] != biguint_nat(*w),
            decreases self.states.len() - k,
        {
            if biguint_eq(&self.states[k], w) {
                assert(self@.history[k as int] == biguint_nat(*w));
                return true;
            }
            k += 1;
        }
        assert(!self@.history.contains(biguint_nat(*w)));
        false
    }

    /// Advances the world one generation: a no-op when already stable;
    /// otherwise every cell is rewritten by Conway's rule against the
    /// unmodified current state, and the result either latches stability
    /// (it was seen before) or becomes current and joins the history.
    pub fn advance(&mut self)
        requires
            old(self).wf(),
        ensures
            final(self).wf(),
            final(self)@ == step_view(old(self)@),
    {
        if self.stable {
            return ;
        }
        proof {
            assert(self@.size * self@.size <= 2500) by (nonlinear_arith)
                requires
                    self@.size <= 50,
            ;
        }

        let mut new_world: BigUint = biguint_clone(&self.world);

        let world_size: u16 = self.world_size as u16;
        let total: u16 = world_size * world_size;

        let mut i: u16 = 0;
        while i < total
            invariant
                self == old(self),
                !self.stable,
                self.wf(),
                world_size == self@.size,
                total == self@.size * self@.size,
                i <= total,
                biguint_nat(new_world) == next_state_upto(self@.state, self@.size, i as nat),
            decreases total - i,
        {
            let cell_count = self.count_nearby_cells(i);
            let current = self.get_cell(i);

            if current == 1 && (cell_count < UNDERPOPULATION_THRESHOLD || cell_count
                > OVERPOPULATION_THRESHOLD) {
                biguint_set_bit(&mut new_world, i as u64, false);
            } else if current == 0 && cell_count == REPRODUCTION_TRIGGER {
                biguint_set_bit(&mut new_world, i as u64, true);
            }
            i += 1;
        }
        assert(biguint_nat(new_world) == next_state(self@.state, self@.size));

        if self.contains_state(&new_world) {
            self.stable = true;
            proof {
                assert(self@ =~= step_view(old(self)@));
            }
            return ;
        }

        self.world = new_world;
        let pushed = biguint_clone(&self.world);
        self.states.push(pushed);
        proof {
            assert(self@.history =~= old(self)@.history.push(biguint_nat(self.world)));
            assert(self@ =~= step_view(old(self)@));
        }
    }

    /// The side length of the world.
    pub fn world_size(&self) -> (r: u8)
        ensures
            r as nat == self@.size,
    {
        self.world_size
    }

    /// A copy of the current packed state.
    pub fn current_state(&self) -> (r: BigUint)
        ensures
            biguint_nat(r) == self@.state,
    {
        biguint_clone(&self.world)
    }

    /// How many states the history holds (the seed counts as the first).
    pub fn history_len(&self) -> (r: usize)
        ensures
            r == self@.history.len(),
    {
        self.states.len()
    }
}

} // verus!
