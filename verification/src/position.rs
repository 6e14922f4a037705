//! Squares of the cruciform 14x14 board with the four 3x3 corner
//! blocks cut off, leaving 160 playable squares. Columns are lettered
//! a through n and rows numbered 1 through 14; here both are kept as
//! zero-based indices.
use vstd::prelude::*;

verus! {

/// True when the square with these zero-based indices lies on the board:
/// inside the 14x14 frame and outside the four cut 3x3 corner blocks.
pub open spec fn on_board(col: int, row: int) -> bool {
    &&& 0 <= col < 14
    &&& 0 <= row < 14
    &&& !((col < 3 || col > 10) && (row < 3 || row > 10))
}

/// One playable square, as a zero-based column index (0 is column a,
/// 13 is column n) and a zero-based row index (0 is row 1, 13 is row 14).
#[derive(Clone, Copy, PartialEq, Eq, Structural, Debug, Hash)]
pub struct Position {
    pub col: u8,
    pub row: u8,
}

impl Position {
    /// The square lies on the cruciform board.
    pub open spec fn wf(self) -> bool {
        on_board(self.col as int, self.row as int)
    }

    /// Row-major index of the square in a flat 14x14 array.
    pub open spec fn spec_index(self) -> int {
        self.row * 14 + self.col
    }

    /// Builds the square with the given signed indices, or returns
    /// `None` when it lies off the board.
    pub fn try_from_indices(col: i32, row: i32) -> (r: Option<Position>)
        ensures
            r is Some <==> on_board(col as int, row as int),
            on_board(col as int, row as int) ==> r == Some(
                Position { col: col as u8, row: row as u8 },
            ),
    {
        if 0 <= col && col < 14 && 0 <= row && row < 14 && !((col < 3 || col > 10) && (row < 3
            || row > 10)) {
            Some(Position { col: col as u8, row: row as u8 })
        } else {
            None
        }
    }

    /// Zero-based column index of the square.
    pub fn column(&self) -> (c: u8)
        ensures
            c == self.col,
    {
        self.col
    }

    /// Zero-based row index of the square.
    pub fn row(&self) -> (r: u8)
        ensures
            r == self.row,
    {
        self.row
    }

    /// Whether the square lies on the cruciform board.
    pub fn check(&self) -> (r: bool)
        ensures
            r == self.wf(),
    {
        self.col < 14 && self.row < 14 && !((self.col < 3 || self.col > 10) && (self.row < 3
            || self.row > 10))
    }

    /// Row-major index of the square in a flat 14x14 array.
    pub fn index(&self) -> (i: usize)
        requires
            self.wf(),
        ensures
            i == self.spec_index(),
            i < 196,
    {
        (self.row as usize) * 14 + (self.col as usize)
    }
}

/// Distinct on-board squares have distinct flat indices, stated on
/// raw indices.
pub proof fn lemma_flat_injective(c1: int, r1: int, c2: int, r2: int)
    requires
        on_board(c1, r1),
        on_board(c2, r2),
        r1 * 14 + c1 == r2 * 14 + c2,
    ensures
        c1 == c2,
        r1 == r2,
{
    assert(c1 == c2 && r1 == r2) by (nonlinear_arith)
        requires
            r1 * 14 + c1 == r2 * 14 + c2,
            0 <= c1 < 14,
            0 <= c2 < 14,
            0 <= r1 < 14,
            0 <= r2 < 14,
    ;
}

/// Distinct on-board squares have distinct flat indices.
pub proof fn lemma_index_injective(a: Position, b: Position)
    requires
        a.wf(),
        b.wf(),
        a.spec_index() == b.spec_index(),
    ensures
        a == b,
{
    assert(a.row == b.row && a.col == b.col) by (nonlinear_arith)
        requires
            a.row * 14 + a.col == b.row * 14 + b.col,
            0 <= a.col < 14,
            0 <= b.col < 14,
            0 <= a.row < 14,
            0 <= b.row < 14,
    ;
}

} // verus!
