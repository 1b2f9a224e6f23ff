//! The mathematical model of a bit-packed square grid.
//!
//! A `world_size x world_size` boolean grid is stored as a single
//! non-negative integer: bit `i` (row-major, bit 0 least significant) is 1
//! iff the cell at flattened position `i` is alive.  Everything here is
//! specification-level: bits of a `nat`, the Moore-neighborhood count
//! derived from flat-index arithmetic, and the Conway transition.

use vstd::prelude::*;

verus! {

/// A live cell dies of underpopulation below this many neighbors.
pub const UNDERPOPULATION_THRESHOLD: u8 = 2;

/// A live cell dies of overpopulation above this many neighbors.
pub const OVERPOPULATION_THRESHOLD: u8 = 3;

/// A dead cell with exactly this many neighbors becomes alive.
pub const REPRODUCTION_TRIGGER: u8 = 3;

/// Bit `i` of the non-negative integer `v`, with bit 0 the least significant.
pub open spec fn nth_bit(v: nat, i: nat) -> bool
    decreases i,
{
    if i == 0 {
        v % 2 == 1
    } else {
        nth_bit(v / 2, (i - 1) as nat)
    }
}

/// Bit `i` of `v` as 0 or 1.
pub open spec fn bit_val(v: nat, i: nat) -> nat {
    if nth_bit(v, i) {
        1
    } else {
        0
    }
}

/// `v` with bit `i` replaced by `b` and every other bit unchanged.
pub open spec fn with_bit(v: nat, i: nat, b: bool) -> nat
    decreases i,
{
    if i == 0 {
        2 * (v / 2) + if b {
            1nat
        } else {
            0nat
        }
    } else {
        2 * with_bit(v / 2, (i - 1) as nat, b) + v % 2
    }
}

/// Replacing bit `i` makes bit `i` equal to `b`.
pub proof fn lemma_with_bit_same(v: nat, i: nat, b: bool)
    ensures
        nth_bit(with_bit(v, i, b), i) == b,
    decreases i,
{
    if i > 0 {
        lemma_with_bit_same(v / 2, (i - 1) as nat, b);
    }
}

/// Replacing bit `i` leaves every other bit unchanged.
pub proof fn lemma_with_bit_other(v: nat, i: nat, b: bool, j: nat)
    requires
        j != i,
    ensures
        nth_bit(with_bit(v, i, b), j) == nth_bit(v, j),
    decreases i,
{
    if i > 0 && j > 0 {
        lemma_with_bit_other(v / 2, (i - 1) as nat, b, (j - 1) as nat);
    }
}

/// Every bit of zero is clear.
pub proof fn lemma_zero_has_no_set_bits(i: nat)
    ensures
        !nth_bit(0, i),
    decreases i,
{
    if i > 0 {
        lemma_zero_has_no_set_bits((i - 1) as nat);
    }
}

/// The cell at flat index `i` lies in the first column of a `size`-wide grid.
pub open spec fn is_first_column(size: nat, i: nat) -> bool {
    i % size == 0
}

/// The cell at flat index `i` lies in the last column of a `size`-wide grid.
pub open spec fn is_last_column(size: nat, i: nat) -> bool {
    (i + 1) % size == 0
}

/// The cell at flat index `i` lies in the first row of a `size`-wide grid.
pub open spec fn is_first_row(size: nat, i: nat) -> bool {
    i < size
}

/// The boundary test used for the downward direction: indices strictly
/// beyond `size * (size - 1)` count as the last row, so the very first cell
/// of the bottom row is not flagged and its downward probes read bits just
/// past the grid (which are zero for any state confined to the grid).
pub open spec fn is_last_row(size: nat, i: nat) -> bool {
    i > size * size - size
}

/// The number of live cells in the Moore neighborhood of flat index `i`:
/// up to 8 adjacent positions, each skipped when the boundary flags say the
/// step would cross the edge of the grid.
pub open spec fn neighbor_count(v: nat, size: nat, i: nat) -> nat {
    let first_col = is_first_column(size, i);
    let last_col = is_last_column(size, i);
    let first_row = is_first_row(size, i);
    let last_row = is_last_row(size, i);
    (if !first_col {
        bit_val(v, (i - 1) as nat)
    } else {
        0nat
    }) + (if !last_col {
        bit_val(v, (i + 1) as nat)
    } else {
        0nat
    }) + (if !first_row {
        bit_val(v, (i - size) as nat)
    } else {
        0nat
    }) + (if !first_row && !first_col {
        bit_val(v, (i - size - 1) as nat)
    } else {
        0nat
    }) + (if !first_row && !last_col {
        bit_val(v, (i - size + 1) as nat)
    } else {
        0nat
    }) + (if !last_row {
        bit_val(v, (i + size) as nat)
    } else {
        0nat
    }) + (if !last_row && !first_col {
        bit_val(v, (i + size - 1) as nat)
    } else {
        0nat
    }) + (if !last_row && !last_col {
        bit_val(v, (i + size + 1) as nat)
    } else {
        0nat
    })
}

/// A state with no live cells has no live neighbors anywhere.
pub proof fn lemma_zero_state_has_no_neighbors(size: nat, i: nat)
    requires
        size >= 2,
    ensures
        neighbor_count(0, size, i) == 0,
{
    assert forall|j: nat| bit_val(0, j) == 0 by {
        lemma_zero_has_no_set_bits(j);
    }
}

/// Boundary cells see fewer neighbors: at most 3 where both a column flag
/// and a row flag hold (a corner), at most 5 where any flag holds (an
/// edge), and at most 8 everywhere.
pub proof fn lemma_neighbor_bounds(v: nat, size: nat, i: nat)
    ensures
        neighbor_count(v, size, i) <= 8,
        (is_first_column(size, i) || is_last_column(size, i)) && (is_first_row(size, i)
            || is_last_row(size, i)) ==> neighbor_count(v, size, i) <= 3,
        is_first_column(size, i) || is_last_column(size, i) || is_first_row(size, i)
            || is_last_row(size, i) ==> neighbor_count(v, size, i) <= 5,
{
}

/// Conway's rule for the cell at flat index `i`, read against state `v`:
/// a live cell survives with a neighbor count between the underpopulation
/// and overpopulation thresholds, a dead cell is born on exactly the
/// reproduction trigger.
pub open spec fn conway_rule(v: nat, size: nat, i: nat) -> bool {
    let n = neighbor_count(v, size, i);
    if nth_bit(v, i) {
        UNDERPOPULATION_THRESHOLD as nat <= n <= OVERPOPULATION_THRESHOLD as nat
    } else {
        n == REPRODUCTION_TRIGGER as nat
    }
}

/// One cell of the scan that builds the next state: the bit at `i` of the
/// accumulator is rewritten only when the rule changes it, and every count
/// is taken against the unmodified snapshot `v0`.
pub open spec fn apply_rule(v0: nat, size: nat, acc: nat, i: nat) -> nat {
    let n = neighbor_count(v0, size, i);
    if nth_bit(v0, i) && (n < UNDERPOPULATION_THRESHOLD as nat || n > OVERPOPULATION_THRESHOLD as nat) {
        with_bit(acc, i, false)
    } else if !nth_bit(v0, i) && n == REPRODUCTION_TRIGGER as nat {
        with_bit(acc, i, true)
    } else {
        acc
    }
}

/// The state after the scan has processed flat indices `0 .. k` of `v`.
pub open spec fn next_state_upto(v: nat, size: nat, k: nat) -> nat
    decreases k,
{
    if k == 0 {
        v
    } else {
        apply_rule(v, size, next_state_upto(v, size, (k - 1) as nat), (k - 1) as nat)
    }
}

/// The state one generation after `v`: every cell of the grid rewritten by
/// Conway's rule, all counts taken against `v` itself.
pub open spec fn next_state(v: nat, size: nat) -> nat {
    next_state_upto(v, size, size * size)
}

proof fn lemma_next_state_upto_bits(v: nat, size: nat, k: nat, j: nat)
    ensures
        j < k ==> nth_bit(next_state_upto(v, size, k), j) == conway_rule(v, size, j),
        j >= k ==> nth_bit(next_state_upto(v, size, k), j) == nth_bit(v, j),
    decreases k,
{
    if k > 0 {
        let prev = next_state_upto(v, size, (k - 1) as nat);
        lemma_next_state_upto_bits(v, size, (k - 1) as nat, j);
        let n = neighbor_count(v, size, (k - 1) as nat);
        if nth_bit(v, (k - 1) as nat) && (n < UNDERPOPULATION_THRESHOLD as nat
            || n > OVERPOPULATION_THRESHOLD as nat) {
            if j == k - 1 {
                lemma_with_bit_same(prev, (k - 1) as nat, false);
            } else {
                lemma_with_bit_other(prev, (k - 1) as nat, false, j);
            }
        } else if !nth_bit(v, (k - 1) as nat) && n == REPRODUCTION_TRIGGER as nat {
            if j == k - 1 {
                lemma_with_bit_same(prev, (k - 1) as nat, true);
            } else {
                lemma_with_bit_other(prev, (k - 1) as nat, true, j);
            }
        }
    }
}

/// The next state, cell by cell: inside the grid each bit is exactly what
/// Conway's rule says against the old state, and every bit beyond the grid
/// is carried over unchanged.
pub proof fn lemma_next_state_bits(v: nat, size: nat, j: nat)
    ensures
        j < size * size ==> nth_bit(next_state(v, size), j) == conway_rule(v, size, j),
        j >= size * size ==> nth_bit(next_state(v, size), j) == nth_bit(v, j),
{
    lemma_next_state_upto_bits(v, size, size * size, j);
}

} // verus!
