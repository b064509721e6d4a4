//! The picture shown on the matrix: a fixed 4x4 grid of on/off cells.

use vstd::prelude::*;

verus! {

/// Number of rows, and of columns, of the matrix.
pub const SIDE: u8 = 4;

/// One picture: `cells[r][c]` says whether the LED in row `r`, column `c`
/// should appear lit. Rows are the outer dimension.
#[derive(Clone, Copy, Debug, PartialEq, Eq)]
pub struct Frame {
    pub cells: [[bool; 4]; 4],
}

impl Frame {
    /// Whether the cell in row `r`, column `c` is lit.
    pub open spec fn lit(&self, r: int, c: int) -> bool {
        self.cells[r][c]
    }

    /// Number of lit cells in row `r` among the columns before `cols`.
    pub open spec fn lit_in_row(&self, r: int, cols: int) -> nat
        decreases cols,
    {
        if cols <= 0 {
            0
        } else if self.lit(r, cols - 1) {
            self.lit_in_row(r, cols - 1) + 1
        } else {
            self.lit_in_row(r, cols - 1)
        }
    }

    /// Number of lit cells in the rows before `rows`.
    pub open spec fn lit_in_rows(&self, rows: int) -> nat
        decreases rows,
    {
        if rows <= 0 {
            0
        } else {
            self.lit_in_rows(rows - 1) + self.lit_in_row(rows - 1, SIDE as int)
        }
    }

    /// Number of lit cells of the whole frame.
    pub open spec fn lit_count(&self) -> nat {
        self.lit_in_rows(SIDE as int)
    }

    proof fn lemma_lit_in_row_bound(&self, r: int, cols: int)
        requires
            0 <= cols,
        ensures
            self.lit_in_row(r, cols) <= cols,
        decreases cols,
    {
        if cols > 0 {
            self.lemma_lit_in_row_bound(r, cols - 1);
        }
    }

    proof fn lemma_lit_in_rows_bound(&self, rows: int)
        requires
            0 <= rows,
        ensures
            self.lit_in_rows(rows) <= 4 * rows,
        decreases rows,
    {
        if rows > 0 {
            self.lemma_lit_in_rows_bound(rows - 1);
            self.lemma_lit_in_row_bound(rows - 1, SIDE as int);
        }
    }

    /// A frame has at most sixteen lit cells.
    pub proof fn lemma_lit_count_bound(&self)
        ensures
            self.lit_count() <= 16,
    {
        self.lemma_lit_in_rows_bound(SIDE as int);
    }

    /// A frame has no lit cell exactly when every cell is dark.
    pub proof fn lemma_dark_iff_no_cell_lit(&self)
        ensures
            self.lit_count() == 0 <==> forall|r: int, c: int|
                0 <= r < 4 && 0 <= c < 4 ==> !#[trigger] self.lit(r, c),
    {
        reveal_with_fuel(Frame::lit_in_row, 5);
        reveal_with_fuel(Frame::lit_in_rows, 5);
        if self.lit_count() == 0 {
            assert forall|r: int, c: int| 0 <= r < 4 && 0 <= c < 4 implies !#[trigger] self.lit(
                r,
                c,
            ) by {
                if self.lit(r, c) {
                    assert(self.lit_in_row(r, 4) >= 1);
                    assert(self.lit_count() >= 1);
                }
            }
        } else {
            if forall|r: int, c: int| 0 <= r < 4 && 0 <= c < 4 ==> !#[trigger] self.lit(r, c) {
                assert(!self.lit(0, 0) && !self.lit(0, 1) && !self.lit(0, 2) && !self.lit(0, 3));
                assert(!self.lit(1, 0) && !self.lit(1, 1) && !self.lit(1, 2) && !self.lit(1, 3));
                assert(!self.lit(2, 0) && !self.lit(2, 1) && !self.lit(2, 2) && !self.lit(2, 3));
                assert(!self.lit(3, 0) && !self.lit(3, 1) && !self.lit(3, 2) && !self.lit(3, 3));
                assert(self.lit_count() == 0);
            }
        }
    }

    /// Builds a frame from its rows.
    pub fn new(cells: [[bool; 4]; 4]) -> (frame: Frame)
        ensures
            frame.cells == cells,
    {
        Frame { cells }
    }

    /// Reads one cell.
    pub fn is_lit(&self, row: u8, col: u8) -> (on: bool)
        requires
            row < SIDE,
            col < SIDE,
        ensures
            on == self.lit(row as int, col as int),
    {
        self.cells[row as usize][col as usize]
    }

    /// Counts the lit cells.
    pub fn count_lit(&self) -> (count: u32)
        ensures
            count == self.lit_count(),
            count <= 16,
    {
        let mut count: u32 = 0;
        let mut row: u8 = 0;
        while row < SIDE
            invariant
                row <= SIDE,
                count == self.lit_in_rows(row as int),
                count <= 4 * row,
            decreases SIDE - row,
        {
            let mut in_row: u32 = 0;
            let mut col: u8 = 0;
            while col < SIDE
                invariant
                    row < SIDE,
                    col <= SIDE,
                    in_row == self.lit_in_row(row as int, col as int),
                    in_row <= col,
                decreases SIDE - col,
            {
                if self.is_lit(row, col) {
                    in_row = in_row + 1;
                }
                col = col + 1;
            }
            count = count + in_row;
            row = row + 1;
        }
        count
    }
}

} // verus!
