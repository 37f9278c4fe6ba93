//! Clockwise traversal of the border of a 5x5 LED matrix.
//!
//! The walker owns a position on the border of the grid and a 5x5 frame in
//! which exactly the cell at that position is lit. Each step turns the
//! current cell off, advances the position one cell clockwise along the
//! border, and turns the new cell on.

use vstd::prelude::*;

verus! {

/// Number of cells on the border of the 5x5 grid; also the period of the
/// clockwise walk.
pub const BORDER_CELLS: usize = 16;

/// A position lies on the border of the 5x5 grid.
pub open spec fn on_border(row: int, col: int) -> bool {
    &&& 0 <= row < 5
    &&& 0 <= col < 5
    &&& (row == 0 || row == 4 || col == 0 || col == 4)
}

/// The clockwise transition rule for border positions; the guards are
/// checked in order and the first match wins. For a position on the border
/// exactly one of the four guards holds, so the final arm is never the
/// meaning of the function on an input that `on_border` admits.
pub open spec fn next_position(row: int, col: int) -> (int, int) {
    if row == 0 && col < 4 {
        (0, col + 1)
    } else if col == 4 && row < 4 {
        (row + 1, 4)
    } else if row == 4 && col > 0 {
        (4, col - 1)
    } else if col == 0 && row > 0 {
        (row - 1, 0)
    } else {
        (row, col)
    }
}

/// The rank of a border position along the clockwise walk, counted from
/// `(0, 0)`: the top row holds ranks 0 to 4, the right column 5 to 8, the
/// bottom row 9 to 12, and the left column 13 to 15.
pub open spec fn border_index(row: int, col: int) -> int {
    if row == 0 {
        col
    } else if col == 4 {
        4 + row
    } else if row == 4 {
        12 - col
    } else {
        16 - row
    }
}

pub proof fn lemma_border_index_range(row: int, col: int)
    requires
        on_border(row, col),
    ensures
        0 <= border_index(row, col) < 16,
{
}

/// Distinct border positions have distinct ranks.
pub proof fn lemma_border_index_injective(r1: int, c1: int, r2: int, c2: int)
    requires
        on_border(r1, c1),
        on_border(r2, c2),
        border_index(r1, c1) == border_index(r2, c2),
    ensures
        r1 == r2,
        c1 == c2,
{
}

/// One application of the transition rule stays on the border and advances
/// the clockwise rank by exactly one, wrapping after the last cell.
pub proof fn lemma_next_position_step(row: int, col: int)
    requires
        on_border(row, col),
    ensures
        on_border(next_position(row, col).0, next_position(row, col).1),
        border_index(next_position(row, col).0, next_position(row, col).1) == (border_index(
            row,
            col,
        ) + 1) % 16,
{
}

/// Computes the position one cell clockwise along the border from
/// `(row, col)`. Calling it with a position off the border is a programming
/// error, excluded here by the precondition.
pub fn compute_next_row_and_col(row: usize, col: usize) -> (next: (usize, usize))
    requires
        on_border(row as int, col as int),
    ensures
        (next.0 as int, next.1 as int) == next_position(row as int, col as int),
        on_border(next.0 as int, next.1 as int),
        border_index(next.0 as int, next.1 as int) == (border_index(row as int, col as int) + 1)
            % 16,
{
    proof {
        lemma_next_position_step(row as int, col as int);
    }
    if row == 0 && col < 4 {
        (0, col + 1)
    } else if col == 4 && row < 4 {
        (row + 1, 4)
    } else if row == 4 && col > 0 {
        (4, col - 1)
    } else {
        (row - 1, 0)
    }
}

/// The position reached after `n` steps of the walk starting at `(0, 0)`.
pub open spec fn nth_position(n: nat) -> (int, int)
    decreases n,
{
    if n == 0 {
        (0, 0)
    } else {
        let prev = nth_position((n - 1) as nat);
        next_position(prev.0, prev.1)
    }
}

/// After `n` steps the walk is on the border, at the cell of clockwise rank
/// `n % 16`.
pub proof fn lemma_nth_position_rank(n: nat)
    ensures
        on_border(nth_position(n).0, nth_position(n).1),
        border_index(nth_position(n).0, nth_position(n).1) == n % 16,
    decreases n,
{
    if n == 0 {
    } else {
        let prev = nth_position((n - 1) as nat);
        lemma_nth_position_rank((n - 1) as nat);
        lemma_next_position_step(prev.0, prev.1);
        assert((((n - 1) % 16) + 1) % 16 == n % 16) by (nonlinear_arith);
    }
}

/// The walk starting at `(0, 0)` returns to `(0, 0)` after exactly
/// `BORDER_CELLS` steps, and the first `BORDER_CELLS` positions are pairwise
/// distinct and cover every border cell: a single cycle through the border.
pub proof fn lemma_walk_cycle()
    ensures
        nth_position(0) == (0int, 0int),
        nth_position(16nat) == (0int, 0int),
        forall|i: nat, j: nat| i < j < 16 ==> nth_position(i) != nth_position(j),
        forall|row: int, col: int|
            on_border(row, col) ==> exists|n: nat| n < 16 && nth_position(n) == (row, col),
{
    lemma_nth_position_rank(16nat);
    lemma_border_index_injective(nth_position(16nat).0, nth_position(16nat).1, 0, 0);
    assert forall|i: nat, j: nat| i < j < 16 implies nth_position(i) != nth_position(j) by {
        lemma_nth_position_rank(i);
        lemma_nth_position_rank(j);
        assert(i % 16 == i);
        assert(j % 16 == j);
    }
    assert forall|row: int, col: int| on_border(row, col) implies exists|n: nat|
        n < 16 && nth_position(n) == (row, col) by {
        lemma_border_index_range(row, col);
        let k = border_index(row, col) as nat;
        lemma_nth_position_rank(k);
        assert(k % 16 == k);
        lemma_border_index_injective(nth_position(k).0, nth_position(k).1, row, col);
        assert(k < 16 && nth_position(k) == (row, col));
    }
}

/// The walker's state: a border position and the 5x5 frame, stored in
/// row-major order, in which exactly the cell at that position is lit.
pub struct Walker {
    pub row: usize,
    pub col: usize,
    pub frame: Vec<u8>,
}

impl Walker {
    /// The position is on the border, the frame has 25 cells, and exactly
    /// the cell at the position holds 1.
    pub open spec fn wf(&self) -> bool {
        &&& on_border(self.row as int, self.col as int)
        &&& self.frame@.len() == 25
        &&& forall|k: int|
            0 <= k < 25 ==> self.frame@[k] == (if k == self.row as int * 5 + self.col as int {
                1u8
            } else {
                0u8
            })
    }

    /// A walker at `(0, 0)` with that cell lit.
    pub fn new() -> (w: Walker)
        ensures
            w.wf(),
            w.row == 0,
            w.col == 0,
    {
        let mut frame: Vec<u8> = Vec::new();
        let mut k: usize = 0;
        while k < 25
            invariant
                k <= 25,
                frame@.len() == k,
                forall|j: int| 0 <= j < k ==> frame@[j] == 0u8,
            decreases 25 - k,
        {
            frame.push(0);
            k = k + 1;
        }
        frame.set(0, 1);
        Walker { row: 0, col: 0, frame }
    }

    /// One cycle of the walk: turn the current cell off, advance one cell
    /// clockwise, and turn the new cell on.
    pub fn step(&mut self)
        requires
            old(self).wf(),
        ensures
            final(self).wf(),
            (final(self).row as int, final(self).col as int) == next_position(
                old(self).row as int,
                old(self).col as int,
            ),
    {
        let idx = self.row * 5 + self.col;
        self.frame.set(idx, 0);
        let (row, col) = compute_next_row_and_col(self.row, self.col);
        self.row = row;
        self.col = col;
        let idx2 = self.row * 5 + self.col;
        self.frame.set(idx2, 1);
    }
}

} // verus!
