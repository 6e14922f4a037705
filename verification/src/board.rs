//! The cruciform board and its pieces: initial setup, lookups, moving
//! pieces with a one-step undo snapshot, attack scanning and the
//! check test used when castling.
use vstd::prelude::*;

use crate::position::{on_board, Position};
use crate::vault::Color;

verus! {

/// The six chess figures.
#[derive(Clone, Copy, PartialEq, Eq, Structural, Debug)]
pub enum Figure {
    Pawn,
    Bishop,
    Knight,
    Queen,
    King,
    Rook,
}

impl Figure {
    /// Whether this figure equals the given one.
    pub fn is(&self, figure: Figure) -> (r: bool)
        ensures
            r == (*self == figure),
    {
        *self == figure
    }
}

/// The line a piece started the game on, as a zero-based column or row
/// index. Pawns use it to tell their forward direction.
#[derive(Clone, Copy, PartialEq, Eq, Structural, Debug)]
pub enum Line {
    Column(u8),
    Row(u8),
}

/// One piece on the board.
#[derive(Clone, Copy, PartialEq, Eq, Structural, Debug)]
pub struct Piece {
    pub figure: Figure,
    pub color: Color,
    /// Still on its starting square; needed for castling.
    pub have_not_move_yet: bool,
    /// Starting line; needed to determine a pawn's direction.
    pub home_line: Line,
}

impl Piece {
    /// A freshly placed piece that has not moved yet.
    pub fn new(figure: Figure, color: Color, home_line: Line) -> (p: Piece)
        ensures
            p == (Piece { figure, color, have_not_move_yet: true, home_line }),
    {
        Piece { figure, color, home_line, have_not_move_yet: true }
    }

    /// Whether the piece has already left its starting square.
    pub fn already_move(&self) -> (r: bool)
        ensures
            r == !self.have_not_move_yet,
    {
        !self.have_not_move_yet
    }
}

/// Result of testing a king's situation.
#[derive(Clone, Copy, PartialEq, Eq, Structural, Debug)]
pub enum CheckMate {
    No,
    Check,
    Checkmate,
}

/// Snapshot of one square before a restorable move.
#[derive(Clone, Copy, PartialEq, Eq, Structural, Debug)]
pub struct CellPos {
    pub cell: Option<Piece>,
    pub position: Position,
}

/// Snapshot of the two squares touched by the last restorable move.
#[derive(Clone, Copy, PartialEq, Eq, Structural, Debug)]
pub struct Restore {
    pub from: CellPos,
    pub to: CellPos,
}

/// A piece together with the square it stands on.
#[derive(Clone, Copy, PartialEq, Eq, Structural, Debug)]
pub struct PiecePos {
    pub piece: Piece,
    pub position: Position,
}

impl PiecePos {
    /// The piece and its square.
    pub fn piece_pos(&self) -> (r: (Piece, Position))
        ensures
            r == (self.piece, self.position),
    {
        (self.piece, self.position)
    }

    /// The square the piece stands on.
    pub fn position(&self) -> (r: Position)
        ensures
            r == self.position,
    {
        self.position
    }

    /// The piece itself.
    pub fn piece(&self) -> (r: Piece)
        ensures
            r == self.piece,
    {
        self.piece
    }
}

/// The board: one slot for each square of the flat 14x14 array
/// (off-board slots stay empty), plus the snapshot of the last
/// restorable move.
pub struct Board {
    pieces: Vec<Option<Piece>>,
    restore: Option<Restore>,
}

/// Absolute value of an offset.
pub open spec fn iabs(x: int) -> int {
    if x < 0 {
        -x
    } else {
        x
    }
}

/// Sign of an offset: -1, 0 or 1.
pub open spec fn sgn(x: int) -> int {
    if x > 0 {
        1
    } else if x < 0 {
        -1
    } else {
        0
    }
}

/// An offset decomposes into its sign times its absolute value.
pub proof fn lemma_sgn_decompose(x: int)
    ensures
        x == sgn(x) * iabs(x),
{
    if x > 0 {
        assert(sgn(x) * iabs(x) == x);
    } else if x < 0 {
        assert(sgn(x) * iabs(x) == (-1) * (-x));
        assert((-1) * (-x) == x) by (nonlinear_arith);
    } else {
        assert(sgn(x) * iabs(x) == 0);
    }
}

/// The offset of a knight's jump.
pub open spec fn knight_jump(dc: int, dr: int) -> bool {
    (iabs(dc) == 2 && iabs(dr) == 1) || (iabs(dc) == 1 && iabs(dr) == 2)
}

/// A proper diagonal offset.
pub open spec fn diag_offset(dc: int, dr: int) -> bool {
    iabs(dc) == iabs(dr) && dc != 0
}

/// A proper horizontal or vertical offset.
pub open spec fn straight_offset(dc: int, dr: int) -> bool {
    (dc == 0 || dr == 0) && !(dc == 0 && dr == 0)
}

/// Number of single-square steps along the line from one square to
/// another, for diagonal and straight offsets.
pub open spec fn ray_len(dc: int, dr: int) -> int {
    if iabs(dc) >= iabs(dr) {
        iabs(dc)
    } else {
        iabs(dr)
    }
}

/// A pawn with the given home line attacks one square diagonally,
/// forward as seen from that line: toward higher columns from the
/// near-left column, toward lower columns from the near-right column,
/// and likewise for rows.
pub open spec fn pawn_attack_dir(home: Line, dc: int, dr: int) -> bool {
    match home {
        Line::Column(h) => if h == 1 {
            dc == -1
        } else {
            dc == 1
        },
        Line::Row(h) => if h == 1 {
            dr == -1
        } else {
            dr == 1
        },
    }
}

/// Figure standing on the i-th square of a home rank, counted from the
/// left rook.
pub open spec fn home_figure(i: int) -> Figure {
    if i == 0 {
        Figure::Rook
    } else if i == 1 {
        Figure::Knight
    } else if i == 2 {
        Figure::Bishop
    } else if i == 3 {
        Figure::Queen
    } else if i == 4 {
        Figure::King
    } else if i == 5 {
        Figure::Bishop
    } else if i == 6 {
        Figure::Knight
    } else {
        Figure::Rook
    }
}

/// The piece standing on the given square at the start of a game: a
/// rank of pawns and a home rank on each of the four arms, Red at the
/// bottom rows, Blue at the left columns, Yellow at the top rows and
/// Green at the right columns.
pub open spec fn start_piece(col: int, row: int) -> Option<Piece> {
    if row == 1 {
        Some(Piece { figure: Figure::Pawn, color: Color::Red, have_not_move_yet: true, home_line: Line::Row(1) })
    } else if col == 1 {
        Some(Piece { figure: Figure::Pawn, color: Color::Blue, have_not_move_yet: true, home_line: Line::Column(1) })
    } else if row == 12 {
        Some(Piece { figure: Figure::Pawn, color: Color::Yellow, have_not_move_yet: true, home_line: Line::Row(12) })
    } else if col == 12 {
        Some(Piece { figure: Figure::Pawn, color: Color::Green, have_not_move_yet: true, home_line: Line::Column(12) })
    } else if row == 0 {
        Some(Piece { figure: home_figure(col - 3), color: Color::Red, have_not_move_yet: true, home_line: Line::Row(0) })
    } else if col == 0 {
        Some(Piece { figure: home_figure(row - 3), color: Color::Blue, have_not_move_yet: true, home_line: Line::Column(0) })
    } else if row == 13 {
        Some(Piece { figure: home_figure(10 - col), color: Color::Yellow, have_not_move_yet: true, home_line: Line::Row(13) })
    } else if col == 13 {
        Some(Piece { figure: home_figure(10 - row), color: Color::Green, have_not_move_yet: true, home_line: Line::Column(13) })
    } else {
        None
    }
}

/// Exec counterpart of `home_figure`.
fn home_figure_at(i: u8) -> (f: Figure)
    requires
        0 <= i < 8,
    ensures
        f == home_figure(i as int),
{
    if i == 0 {
        Figure::Rook
    } else if i == 1 {
        Figure::Knight
    } else if i == 2 {
        Figure::Bishop
    } else if i == 3 {
        Figure::Queen
    } else if i == 4 {
        Figure::King
    } else if i == 5 {
        Figure::Bishop
    } else if i == 6 {
        Figure::Knight
    } else {
        Figure::Rook
    }
}

/// Exec counterpart of `start_piece` for on-board squares.
fn start_piece_at(col: u8, row: u8) -> (p: Option<Piece>)
    requires
        on_board(col as int, row as int),
    ensures
        p == start_piece(col as int, row as int),
{
    if row == 1 {
        Some(Piece::new(Figure::Pawn, Color::Red, Line::Row(1)))
    } else if col == 1 {
        Some(Piece::new(Figure::Pawn, Color::Blue, Line::Column(1)))
    } else if row == 12 {
        Some(Piece::new(Figure::Pawn, Color::Yellow, Line::Row(12)))
    } else if col == 12 {
        Some(Piece::new(Figure::Pawn, Color::Green, Line::Column(12)))
    } else if row == 0 {
        Some(Piece::new(home_figure_at(col - 3), Color::Red, Line::Row(0)))
    } else if col == 0 {
        Some(Piece::new(home_figure_at(row - 3), Color::Blue, Line::Column(0)))
    } else if row == 13 {
        Some(Piece::new(home_figure_at(10 - col), Color::Yellow, Line::Row(13)))
    } else if col == 13 {
        Some(Piece::new(home_figure_at(10 - row), Color::Green, Line::Column(13)))
    } else {
        None
    }
}

/// Exec counterpart of `pawn_attack_dir`.
fn pawn_dir_hit(home: Line, dc: i32, dr: i32) -> (r: bool)
    ensures
        r == pawn_attack_dir(home, dc as int, dr as int),
{
    match home {
        Line::Column(h) => if h == 1 {
            dc == -1
        } else {
            dc == 1
        },
        Line::Row(h) => if h == 1 {
            dr == -1
        } else {
            dr == 1
        },
    }
}

/// Multiples of a unit direction: the k-th square along a ray keeps
/// the direction as its sign, has distance k, and is never a knight
/// jump away.
proof fn lemma_unit_ray_arith(dc: int, dr: int, k: int)
    requires
        -1 <= dc <= 1,
        -1 <= dr <= 1,
        !(dc == 0 && dr == 0),
        k >= 1,
    ensures
        sgn(k * dc) == dc,
        sgn(k * dr) == dr,
        ray_len(k * dc, k * dr) == k,
        !knight_jump(k * dc, k * dr),
        diag_offset(k * dc, k * dr) <==> (dc != 0 && dr != 0),
        straight_offset(k * dc, k * dr) <==> (dc == 0 || dr == 0),
{
    assert((dc == 1 ==> k * dc == k) && (dc == 0 ==> k * dc == 0) && (dc == -1 ==> k * dc == -k)
        && (dr == 1 ==> k * dr == k) && (dr == 0 ==> k * dr == 0) && (dr == -1 ==> k * dr == -k))
        by (nonlinear_arith)
        requires
            -1 <= dc <= 1,
            -1 <= dr <= 1,
    ;
}

/// A square of the 14x14 frame reached by k unit steps from an
/// on-board square limits k to at most 13 steps.
proof fn lemma_ray_bound(tc: int, tr: int, dc: int, dr: int, k: int)
    requires
        0 <= tc < 14,
        0 <= tr < 14,
        -1 <= dc <= 1,
        -1 <= dr <= 1,
        !(dc == 0 && dr == 0),
        k >= 1,
        0 <= tc + k * dc < 14,
        0 <= tr + k * dr < 14,
    ensures
        k <= 13,
{
    lemma_unit_ray_arith(dc, dr, k);
    if dc == 1 {
        assert(k * dc == k);
    } else if dc == -1 {
        assert(k * dc == -k);
    } else {
        if dr == 1 {
            assert(k * dr == k);
        } else {
            assert(k * dr == -k);
        }
    }
}

impl Board {
    /// The board has one slot per square of the 14x14 frame.
    pub closed spec fn wf(self) -> bool {
        self.pieces@.len() == 196
    }

    /// The piece standing on the square with the given indices; empty
    /// off the board.
    pub closed spec fn at(self, col: int, row: int) -> Option<Piece> {
        if on_board(col, row) {
            self.pieces@[row * 14 + col]
        } else {
            None
        }
    }

    /// The piece standing on an on-board square.
    pub open spec fn spec_piece(self, pos: Position) -> Option<Piece> {
        self.at(pos.col as int, pos.row as int)
    }

    /// The snapshot of the last restorable move, if one is pending.
    pub closed spec fn spec_restore(self) -> Option<Restore> {
        self.restore
    }

    /// A fresh board holding the initial setup on every square.
    pub fn new() -> (b: Board)
        ensures
            b.wf(),
            forall|col: int, row: int|
                on_board(col, row) ==> #[trigger] b.at(col, row) == start_piece(col, row),
            b.spec_restore() is None,
    {
        let mut pieces: Vec<Option<Piece>> = Vec::new();
        let mut row: u8 = 0;
        while row < 14
            invariant
                row <= 14,
                pieces@.len() == row * 14,
                forall|c: int, r: int|
                    0 <= c < 14 && 0 <= r < row ==> #[trigger] pieces@[r * 14 + c] == (if on_board(
                        c,
                        r,
                    ) {
                        start_piece(c, r)
                    } else {
                        None::<Piece>
                    }),
            decreases 14 - row,
        {
            let mut col: u8 = 0;
            while col < 14
                invariant
                    row < 14,
                    col <= 14,
                    pieces@.len() == row * 14 + col,
                    forall|c: int, r: int|
                        0 <= c < 14 && 0 <= r < row ==> #[trigger] pieces@[r * 14 + c] == (
                        if on_board(c, r) {
                            start_piece(c, r)
                        } else {
                            None::<Piece>
                        }),
                    forall|c: int|
                        0 <= c < col ==> #[trigger] pieces@[row * 14 + c] == (if on_board(
                            c,
                            row as int,
                        ) {
                            start_piece(c, row as int)
                        } else {
                            None::<Piece>
                        }),
                decreases 14 - col,
            {
                let off_board = (col < 3 || col > 10) && (row < 3 || row > 10);
                if off_board {
                    pieces.push(None);
                } else {
                    pieces.push(start_piece_at(col, row));
                }
                col = col + 1;
            }
            row = row + 1;
        }
        Board { pieces, restore: None }
    }

    /// The piece on the given square, if any.
    pub fn piece(&self, pos: Position) -> (r: Option<Piece>)
        requires
            self.wf(),
            pos.wf(),
        ensures
            r == self.spec_piece(pos),
    {
        self.pieces[pos.index()]
    }

    /// Writes one square; every other square keeps its piece.
    fn set_square(&mut self, pos: Position, v: Option<Piece>)
        requires
            old(self).wf(),
            pos.wf(),
        ensures
            final(self).wf(),
            final(self).spec_piece(pos) == v,
            forall|c: int, r: int|
                !(c == pos.col && r == pos.row) ==> #[trigger] final(self).at(c, r) == old(self).at(c, r),
            final(self).spec_restore() == old(self).spec_restore(),
    {
        let i = pos.index();
        self.pieces[i] = v;
        proof {
            assert forall|c: int, r: int| !(c == pos.col && r == pos.row) implies #[trigger] self.at(
                c,
                r,
            ) == old(self).at(c, r) by {
                if on_board(c, r) {
                    if r * 14 + c == pos.spec_index() {
                        crate::position::lemma_flat_injective(
                            c,
                            r,
                            pos.col as int,
                            pos.row as int,
                        );
                    }
                }
            }
        }
    }

    /// Lifts a move away from a square, marking the piece as moved,
    /// and drops it on the destination. Returns the piece the
    /// destination held before; with an empty source square nothing
    /// changes.
    pub fn piece_move(&mut self, from: Position, to: Position) -> (r: Option<Piece>)
        requires
            old(self).wf(),
            from.wf(),
            to.wf(),
        ensures
            final(self).wf(),
            final(self).spec_restore() == old(self).spec_restore(),
            old(self).spec_piece(from) is None ==> {
                &&& r is None
                &&& forall|c: int, r2: int| #[trigger]
                    final(self).at(c, r2) == old(self).at(c, r2)
            },
            old(self).spec_piece(from) matches Some(p) ==> {
                &&& final(self).spec_piece(to) == Some(
                    Piece { have_not_move_yet: false, ..p },
                )
                &&& from != to ==> final(self).spec_piece(from) is None
                &&& r == (if from == to {
                    None::<Piece>
                } else {
                    old(self).spec_piece(to)
                })
                &&& forall|c: int, r2: int|
                    !(c == from.col && r2 == from.row) && !(c == to.col && r2 == to.row)
                        ==> #[trigger] final(self).at(c, r2) == old(self).at(c, r2)
            },
    {
        let cur = self.piece(from);
        match cur {
            None => None,
            Some(piece) => {
                self.set_square(from, None);
                let moved = Piece { have_not_move_yet: false, ..piece };
                let displaced = self.piece(to);
                self.set_square(to, Some(moved));
                displaced
            },
        }
    }

    /// Like `piece_move`, but first snapshots both touched squares so
    /// the move can be undone by `restore_move`.
    pub fn restorable_piece_move(&mut self, from: Position, to: Position) -> (r: Option<Piece>)
        requires
            old(self).wf(),
            from.wf(),
            to.wf(),
        ensures
            final(self).wf(),
            final(self).spec_restore() == Some(
                Restore {
                    from: CellPos { cell: old(self).spec_piece(from), position: from },
                    to: CellPos { cell: old(self).spec_piece(to), position: to },
                },
            ),
            old(self).spec_piece(from) is None ==> {
                &&& r is None
                &&& forall|c: int, r2: int| #[trigger]
                    final(self).at(c, r2) == old(self).at(c, r2)
            },
            old(self).spec_piece(from) matches Some(p) ==> {
                &&& final(self).spec_piece(to) == Some(
                    Piece { have_not_move_yet: false, ..p },
                )
                &&& from != to ==> final(self).spec_piece(from) is None
                &&& r == (if from == to {
                    None::<Piece>
                } else {
                    old(self).spec_piece(to)
                })
                &&& forall|c: int, r2: int|
                    !(c == from.col && r2 == from.row) && !(c == to.col && r2 == to.row)
                        ==> #[trigger] final(self).at(c, r2) == old(self).at(c, r2)
            },
    {
        let snapshot = Restore {
            from: CellPos { cell: self.piece(from), position: from },
            to: CellPos { cell: self.piece(to), position: to },
        };
        self.restore = Some(snapshot);
        self.piece_move(from, to)
    }

    /// Puts the snapshotted squares back and clears the snapshot.
    /// Returns whether a snapshot was pending.
    pub fn restore_move(&mut self) -> (r: bool)
        requires
            old(self).wf(),
            old(self).spec_restore() matches Some(rs) ==> rs.from.position.wf()
                && rs.to.position.wf(),
        ensures
            final(self).wf(),
            r == (old(self).spec_restore() is Some),
            old(self).spec_restore() is None ==> *final(self) == *old(self),
            old(self).spec_restore() matches Some(rs) ==> {
                &&& final(self).spec_restore() is None
                &&& final(self).spec_piece(rs.to.position) == rs.to.cell
                &&& rs.from.position != rs.to.position ==> final(self).spec_piece(
                    rs.from.position,
                ) == rs.from.cell
                &&& forall|c: int, r2: int|
                    !(c == rs.from.position.col && r2 == rs.from.position.row) && !(c
                        == rs.to.position.col && r2 == rs.to.position.row) ==> #[trigger] final(self).at(c, r2) == old(self).at(c, r2)
            },
    {
        let restore = match &self.restore {
            Some(restore) => *restore,
            None => { return false; },
        };
        self.set_square(restore.from.position, restore.from.cell);
        let ghost mid = *self;
        self.set_square(restore.to.position, restore.to.cell);
        let ghost mid2 = *self;
        self.restore = None;
        proof {
            assert forall|c: int, r2: int|
                !(c == restore.from.position.col && r2 == restore.from.position.row) && !(c
                    == restore.to.position.col && r2 == restore.to.position.row) implies #[trigger] self.at(
                c,
                r2,
            ) == old(self).at(c, r2) by {
                assert(mid2.at(c, r2) == mid.at(c, r2));
                assert(mid.at(c, r2) == old(self).at(c, r2));
                assert(self.at(c, r2) == mid2.at(c, r2));
            }
            if restore.from.position != restore.to.position {
                assert(self.spec_piece(restore.from.position) == mid2.spec_piece(
                    restore.from.position,
                ));
                assert(mid2.spec_piece(restore.from.position) == mid.spec_piece(
                    restore.from.position,
                ));
            }
            assert(self.spec_piece(restore.to.position) == mid2.spec_piece(restore.to.position));
        }
        true
    }

    /// A king of the given color stands on the square with these
    /// indices.
    pub open spec fn king_at(self, col: int, row: int, color: Color) -> bool {
        match self.at(col, row) {
            Some(p) => p.figure == Figure::King && p.color == color,
            None => false,
        }
    }

    /// The king of the given color together with its square, scanning
    /// the squares in row-major order.
    pub fn find_king(&self, color: Color) -> (r: Option<PiecePos>)
        requires
            self.wf(),
        ensures
            r matches Some(pp) ==> {
                &&& pp.position.wf()
                &&& self.spec_piece(pp.position) == Some(pp.piece)
                &&& pp.piece.figure == Figure::King
                &&& pp.piece.color == color
            },
            r is None ==> forall|c: int, rw: int| !self.king_at(c, rw, color),
    {
        let mut row: u8 = 0;
        while row < 14
            invariant
                self.wf(),
                row <= 14,
                forall|c: int, rw: int| rw < row ==> !self.king_at(c, rw, color),
            decreases 14 - row,
        {
            let mut col: u8 = 0;
            while col < 14
                invariant
                    self.wf(),
                    row < 14,
                    col <= 14,
                    forall|c: int, rw: int| rw < row ==> !self.king_at(c, rw, color),
                    forall|c: int| c < col ==> !self.king_at(c, row as int, color),
                decreases 14 - col,
            {
                if let Some(position) = Position::try_from_indices(col as i32, row as i32) {
                    if let Some(piece) = self.piece(position) {
                        if piece.figure.is(Figure::King) && piece.color == color {
                            return Some(PiecePos { piece, position });
                        }
                    }
                }
                proof {
                    assert(!self.king_at(col as int, row as int, color));
                }
                col = col + 1;
            }
            row = row + 1;
        }
        proof {
            assert forall|c: int, rw: int| !self.king_at(c, rw, color) by {
                if 0 <= rw < 14 {
                } else {
                    assert(self.at(c, rw) is None);
                }
            }
        }
        None
    }

    /// Every square strictly between the scan origin and the k-th
    /// square along the given unit direction lies on the board and is
    /// empty.
    pub open spec fn ray_clear_to(self, tc: int, tr: int, dc: int, dr: int, k: int) -> bool {
        forall|j: int|
            1 <= j < k ==> on_board(tc + j * dc, tr + j * dr) && #[trigger] self.at(
                tc + j * dc,
                tr + j * dr,
            ) is None
    }

    /// The piece standing on the given square attacks the target
    /// square, by the movement rules the scanner implements: knights
    /// jump; bishops, rooks and queens slide along an unobstructed
    /// line of on-board squares; kings reach the adjacent squares; a
    /// pawn reaches one square diagonally, forward as seen from its
    /// home line. Pieces of every color count.
    pub open spec fn attacks(self, fc: int, fr: int, t: Position) -> bool {
        let tc = t.col as int;
        let tr = t.row as int;
        let dc = fc - tc;
        let dr = fr - tr;
        on_board(fc, fr) && match self.at(fc, fr) {
            Some(p) => match p.figure {
                Figure::Knight => knight_jump(dc, dr),
                Figure::Bishop => diag_offset(dc, dr) && self.ray_clear_to(
                    tc,
                    tr,
                    sgn(dc),
                    sgn(dr),
                    ray_len(dc, dr),
                ),
                Figure::Rook => straight_offset(dc, dr) && self.ray_clear_to(
                    tc,
                    tr,
                    sgn(dc),
                    sgn(dr),
                    ray_len(dc, dr),
                ),
                Figure::Queen => (diag_offset(dc, dr) || straight_offset(dc, dr))
                    && self.ray_clear_to(tc, tr, sgn(dc), sgn(dr), ray_len(dc, dr)),
                Figure::King => (diag_offset(dc, dr) || straight_offset(dc, dr)) && ray_len(
                    dc,
                    dr,
                ) == 1,
                Figure::Pawn => diag_offset(dc, dr) && ray_len(dc, dr) == 1 && pawn_attack_dir(
                    p.home_line,
                    dc,
                    dr,
                ),
            },
            None => false,
        }
    }

    /// Probes one knight-jump square. Returns the knight standing
    /// there, if there is one.
    fn knight_attacker(&self, t: Position, dc: i32, dr: i32) -> (r: Option<PiecePos>)
        requires
            self.wf(),
            t.wf(),
            knight_jump(dc as int, dr as int),
        ensures
            r matches Some(pp) ==> {
                &&& pp.position.wf()
                &&& pp.position.col == t.col + dc
                &&& pp.position.row == t.row + dr
                &&& self.spec_piece(pp.position) == Some(pp.piece)
                &&& self.attacks(t.col + dc, t.row + dr, t)
            },
            r is None ==> !(self.at(t.col + dc, t.row + dr) matches Some(p) && p.figure
                == Figure::Knight),
    {
        if let Some(position) = Position::try_from_indices(
            t.column() as i32 + dc,
            t.row() as i32 + dr,
        ) {
            if let Some(piece) = self.piece(position) {
                if piece.figure.is(Figure::Knight) {
                    return Some(PiecePos { piece, position });
                }
            }
        }
        None
    }

    /// Walks outward from the target square along one unit direction
    /// until the first piece or the edge of the board, and returns
    /// that piece when it attacks the target. The second clause of the
    /// contract says the walk is complete: any attacker standing on
    /// this ray is the returned one.
    fn scan_ray(&self, t: Position, dc: i32, dr: i32, diag: bool) -> (r: Option<PiecePos>)
        requires
            self.wf(),
            t.wf(),
            diag ==> iabs(dc as int) == 1 && iabs(dr as int) == 1,
            !diag ==> straight_offset(dc as int, dr as int) && iabs(dc as int) <= 1 && iabs(
                dr as int,
            ) <= 1,
        ensures
            r matches Some(pp) ==> {
                &&& pp.position.wf()
                &&& self.spec_piece(pp.position) == Some(pp.piece)
                &&& self.attacks(pp.position.col as int, pp.position.row as int, t)
            },
            forall|k: int|
                k >= 1 && #[trigger] self.attacks(t.col + k * dc, t.row + k * dr, t) ==> (
                r matches Some(pp) && pp.position.col == t.col + k * dc && pp.position.row == t.row
                    + k * dr),
    {
        let tc = t.column() as i32;
        let tr = t.row() as i32;
        let mut k: i32 = 1;
        loop
            invariant
                self.wf(),
                t.wf(),
                tc == t.col,
                tr == t.row,
                1 <= k <= 14,
                -1 <= dc as int <= 1,
                -1 <= dr as int <= 1,
                !(dc as int == 0 && dr as int == 0),
                diag ==> iabs(dc as int) == 1 && iabs(dr as int) == 1,
                !diag ==> straight_offset(dc as int, dr as int) && iabs(dc as int) <= 1 && iabs(
                    dr as int,
                ) <= 1,
                self.ray_clear_to(t.col as int, t.row as int, dc as int, dr as int, k as int),
            decreases 14 - k,
        {
            proof {
                assert(-14 <= (k as int) * (dc as int) <= 14 && -14 <= (k as int) * (dr as int)
                    <= 14) by (nonlinear_arith)
                    requires
                        1 <= k as int <= 14,
                        -1 <= dc as int <= 1,
                        -1 <= dr as int <= 1,
                ;
            }
            let fc = tc + k * dc;
            let fr = tr + k * dr;
            match Position::try_from_indices(fc, fr) {
                None => {
                    proof {
                        self.lemma_ray_ends_off_board(t, dc as int, dr as int, k as int);
                    }
                    return None;
                },
                Some(position) => {
                    match self.piece(position) {
                        None => {
                            proof {
                                assert(on_board(fc as int, fr as int));
                                assert(self.at(fc as int, fr as int) is None);
                                lemma_ray_bound(
                                    t.col as int,
                                    t.row as int,
                                    dc as int,
                                    dr as int,
                                    k as int,
                                );
                            }
                            k = k + 1;
                        },
                        Some(piece) => {
                            let hit = if diag {
                                match piece.figure {
                                    Figure::Rook | Figure::Knight => false,
                                    Figure::Queen | Figure::Bishop => true,
                                    Figure::Pawn => k == 1 && pawn_dir_hit(
                                        piece.home_line,
                                        dc,
                                        dr,
                                    ),
                                    Figure::King => k == 1,
                                }
                            } else {
                                match piece.figure {
                                    Figure::Pawn | Figure::Knight | Figure::Bishop => false,
                                    Figure::Queen | Figure::Rook => true,
                                    Figure::King => k == 1,
                                }
                            };
                            proof {
                                self.lemma_ray_ends_blocked(
                                    t,
                                    dc as int,
                                    dr as int,
                                    k as int,
                                );
                            }
                            if hit {
                                return Some(PiecePos { piece, position });
                            } else {
                                return None;
                            }
                        },
                    }
                },
            }
        }
    }
}

/// Appends a probe's find, keeping every element already present.
fn push_opt(v: &mut Vec<PiecePos>, o: Option<PiecePos>)
    ensures
        forall|x: PiecePos| old(v)@.contains(x) ==> final(v)@.contains(x),
        forall|x: PiecePos| final(v)@.contains(x) ==> old(v)@.contains(x) || o == Some(x),
        o matches Some(pp) ==> final(v)@.contains(pp),
        (final(v)@.len() > 0) == (old(v)@.len() > 0 || o is Some),
{
    match o {
        Some(pp) => {
            v.push(pp);
            proof {
                assert(v@ == old(v)@.push(pp));
                assert forall|x: PiecePos| old(v)@.contains(x) implies v@.contains(x) by {
                    let i = choose|i: int| 0 <= i < old(v)@.len() && old(v)@[i] == x;
                    assert(v@[i] == x);
                }
                assert(v@[v@.len() - 1] == pp);
                assert forall|x: PiecePos| v@.contains(x) implies old(v)@.contains(x) || o == Some(
                    x,
                ) by {
                    let i = choose|i: int| 0 <= i < v@.len() && v@[i] == x;
                    if i < old(v)@.len() {
                        assert(old(v)@[i] == x);
                    }
                }
            }
        },
        None => {},
    }
}

impl Board {
    /// A ray whose walk left the board at step k0 carries no attacker
    /// at any step.
    proof fn lemma_ray_ends_off_board(self, t: Position, dc: int, dr: int, k0: int)
        requires
            self.wf(),
            t.wf(),
            -1 <= dc <= 1,
            -1 <= dr <= 1,
            !(dc == 0 && dr == 0),
            1 <= k0,
            self.ray_clear_to(t.col as int, t.row as int, dc, dr, k0),
            !on_board(t.col + k0 * dc, t.row + k0 * dr),
        ensures
            forall|k: int| k >= 1 ==> !#[trigger] self.attacks(t.col + k * dc, t.row + k * dr, t),
    {
        let tc = t.col as int;
        let tr = t.row as int;
        assert forall|k: int| k >= 1 implies !#[trigger] self.attacks(tc + k * dc, tr + k * dr, t) by {
            lemma_unit_ray_arith(dc, dr, k);
            if k < k0 {
                assert(self.at(tc + k * dc, tr + k * dr) is None);
            } else if k == k0 {
            } else {
                if self.attacks(tc + k * dc, tr + k * dr, t) {
                    let p = self.at(tc + k * dc, tr + k * dr).unwrap();
                    match p.figure {
                        Figure::Bishop | Figure::Rook | Figure::Queen => {
                            assert(self.ray_clear_to(tc, tr, dc, dr, k));
                            assert(self.at(tc + k0 * dc, tr + k0 * dr) is None && on_board(
                                tc + k0 * dc,
                                tr + k0 * dr,
                            ));
                        },
                        _ => {},
                    }
                }
            }
        }
    }

    /// A ray whose walk stopped on a piece at step k0 carries no
    /// attacker at any other step, and carries one at k0 exactly when
    /// that piece's figure reaches the target over this distance and
    /// direction.
    proof fn lemma_ray_ends_blocked(self, t: Position, dc: int, dr: int, k0: int)
        requires
            self.wf(),
            t.wf(),
            -1 <= dc <= 1,
            -1 <= dr <= 1,
            !(dc == 0 && dr == 0),
            1 <= k0,
            self.ray_clear_to(t.col as int, t.row as int, dc, dr, k0),
            on_board(t.col + k0 * dc, t.row + k0 * dr),
            self.at(t.col + k0 * dc, t.row + k0 * dr) is Some,
        ensures
            forall|k: int|
                k >= 1 && k != k0 ==> !#[trigger] self.attacks(t.col + k * dc, t.row + k * dr, t),
            self.attacks(t.col + k0 * dc, t.row + k0 * dr, t) <==> ({
                let p = self.at(t.col + k0 * dc, t.row + k0 * dr).unwrap();
                if dc != 0 && dr != 0 {
                    match p.figure {
                        Figure::Queen | Figure::Bishop => true,
                        Figure::Pawn => k0 == 1 && pawn_attack_dir(p.home_line, dc, dr),
                        Figure::King => k0 == 1,
                        _ => false,
                    }
                } else {
                    match p.figure {
                        Figure::Queen | Figure::Rook => true,
                        Figure::King => k0 == 1,
                        _ => false,
                    }
                }
            }),
    {
        let tc = t.col as int;
        let tr = t.row as int;
        assert forall|k: int| k >= 1 && k != k0 implies !#[trigger] self.attacks(
            tc + k * dc,
            tr + k * dr,
            t,
        ) by {
            lemma_unit_ray_arith(dc, dr, k);
            if k < k0 {
                assert(self.at(tc + k * dc, tr + k * dr) is None);
            } else {
                if self.attacks(tc + k * dc, tr + k * dr, t) {
                    let p = self.at(tc + k * dc, tr + k * dr).unwrap();
                    match p.figure {
                        Figure::Bishop | Figure::Rook | Figure::Queen => {
                            assert(self.ray_clear_to(tc, tr, dc, dr, k));
                            assert(self.at(tc + k0 * dc, tr + k0 * dr) is None);
                        },
                        _ => {},
                    }
                }
            }
        }
        lemma_unit_ray_arith(dc, dr, k0);
        let p = self.at(tc + k0 * dc, tr + k0 * dr).unwrap();
        if ({
            if dc != 0 && dr != 0 {
                match p.figure {
                    Figure::Queen | Figure::Bishop => true,
                    Figure::Pawn => k0 == 1 && pawn_attack_dir(p.home_line, dc, dr),
                    Figure::King => k0 == 1,
                    _ => false,
                }
            } else {
                match p.figure {
                    Figure::Queen | Figure::Rook => true,
                    Figure::King => k0 == 1,
                    _ => false,
                }
            }
        }) {
            assert(self.attacks(tc + k0 * dc, tr + k0 * dr, t));
        }
    }

    /// Every piece of any color that attacks the target square, or
    /// `None` when no square attacks it. The list holds exactly the
    /// attacking squares.
    pub fn attackers_on_position(&self, target_pos: Position) -> (r: Option<Vec<PiecePos>>)
        requires
            self.wf(),
            target_pos.wf(),
        ensures
            r matches Some(v) ==> {
                &&& v@.len() > 0
                &&& forall|i: int|
                    0 <= i < v@.len() ==> {
                        let pp = #[trigger] v@[i];
                        &&& pp.position.wf()
                        &&& self.spec_piece(pp.position) == Some(pp.piece)
                        &&& self.attacks(pp.position.col as int, pp.position.row as int, target_pos)
                    }
                &&& forall|fc: int, fr: int|
                    #[trigger] self.attacks(fc, fr, target_pos) ==> exists|i: int|
                        0 <= i < v@.len() && v@[i].position.col == fc && v@[i].position.row == fr
            },
            r is None ==> forall|fc: int, fr: int| !self.attacks(fc, fr, target_pos),
    {
        let t = target_pos;
        let mut attackers: Vec<PiecePos> = Vec::new();

        let n0 = self.knight_attacker(t, 2, 1);
        let n1 = self.knight_attacker(t, 1, 2);
        let n2 = self.knight_attacker(t, 2, -1);
        let n3 = self.knight_attacker(t, 1, -2);
        let n4 = self.knight_attacker(t, -2, 1);
        let n5 = self.knight_attacker(t, -1, 2);
        let n6 = self.knight_attacker(t, -2, -1);
        let n7 = self.knight_attacker(t, -1, -2);
        let d0 = self.scan_ray(t, 1, 1, true);
        let d1 = self.scan_ray(t, 1, -1, true);
        let d2 = self.scan_ray(t, -1, 1, true);
        let d3 = self.scan_ray(t, -1, -1, true);
        let v0 = self.scan_ray(t, 0, 1, false);
        let v1 = self.scan_ray(t, 0, -1, false);
        let v2 = self.scan_ray(t, 1, 0, false);
        let v3 = self.scan_ray(t, -1, 0, false);

        push_opt(&mut attackers, n0);
        push_opt(&mut attackers, n1);
        push_opt(&mut attackers, n2);
        push_opt(&mut attackers, n3);
        push_opt(&mut attackers, n4);
        push_opt(&mut attackers, n5);
        push_opt(&mut attackers, n6);
        push_opt(&mut attackers, n7);
        push_opt(&mut attackers, d0);
        push_opt(&mut attackers, d1);
        push_opt(&mut attackers, d2);
        push_opt(&mut attackers, d3);
        push_opt(&mut attackers, v0);
        push_opt(&mut attackers, v1);
        push_opt(&mut attackers, v2);
        push_opt(&mut attackers, v3);

        proof {
            let tc = t.col as int;
            let tr = t.row as int;
            assert forall|fc: int, fr: int| #[trigger] self.attacks(fc, fr, t) implies exists|
                i: int,
            |
                0 <= i < attackers@.len() && attackers@[i].position.col == fc
                    && attackers@[i].position.row == fr by {
                let p = self.at(fc, fr).unwrap();
                let d = fc - tc;
                let e = fr - tr;
                if p.figure == Figure::Knight {
                    if d == 2 && e == 1 {
                        assert(self.attacks(tc + 2, tr + 1, t));
                        let pp = n0.unwrap();
                        assert(attackers@.contains(pp));
                        self.witness_at(attackers@, pp, fc, fr);
                    } else if d == 1 && e == 2 {
                        assert(self.attacks(tc + 1, tr + 2, t));
                        let pp = n1.unwrap();
                        assert(attackers@.contains(pp));
                        self.witness_at(attackers@, pp, fc, fr);
                    } else if d == 2 && e == -1 {
                        assert(self.attacks(tc + 2, tr + (-1), t));
                        let pp = n2.unwrap();
                        assert(attackers@.contains(pp));
                        self.witness_at(attackers@, pp, fc, fr);
                    } else if d == 1 && e == -2 {
                        assert(self.attacks(tc + 1, tr + (-2), t));
                        let pp = n3.unwrap();
                        assert(attackers@.contains(pp));
                        self.witness_at(attackers@, pp, fc, fr);
                    } else if d == -2 && e == 1 {
                        assert(self.attacks(tc + (-2), tr + 1, t));
                        let pp = n4.unwrap();
                        assert(attackers@.contains(pp));
                        self.witness_at(attackers@, pp, fc, fr);
                    } else if d == -1 && e == 2 {
                        assert(self.attacks(tc + (-1), tr + 2, t));
                        let pp = n5.unwrap();
                        assert(attackers@.contains(pp));
                        self.witness_at(attackers@, pp, fc, fr);
                    } else if d == -2 && e == -1 {
                        assert(self.attacks(tc + (-2), tr + (-1), t));
                        let pp = n6.unwrap();
                        assert(attackers@.contains(pp));
                        self.witness_at(attackers@, pp, fc, fr);
                    } else {
                        assert(d == -1 && e == -2);
                        assert(self.attacks(tc + (-1), tr + (-2), t));
                        let pp = n7.unwrap();
                        assert(attackers@.contains(pp));
                        self.witness_at(attackers@, pp, fc, fr);
                    }
                } else {
                    let k = ray_len(d, e);
                    let dc = sgn(d);
                    let dr = sgn(e);
                    lemma_sgn_decompose(d);
                    lemma_sgn_decompose(e);
                    assert(iabs(d) == iabs(e) || d == 0 || e == 0);
                    assert(k >= 1);
                    assert(fc == tc + k * dc && fr == tr + k * dr) by (nonlinear_arith)
                        requires
                            d == sgn(d) * iabs(d),
                            e == sgn(e) * iabs(e),
                            dc == sgn(d),
                            dr == sgn(e),
                            k == ray_len(d, e),
                            iabs(d) == iabs(e) || d == 0 || e == 0,
                            (if iabs(d) >= iabs(e) { iabs(d) } else { iabs(e) }) == k,
                            fc == tc + d,
                            fr == tr + e,
                            iabs(d) == (if d < 0 { -d } else { d }),
                            iabs(e) == (if e < 0 { -e } else { e }),
                            sgn(d) == (if d > 0 { 1 } else if d < 0 { -1 } else { 0 }),
                            sgn(e) == (if e > 0 { 1 } else if e < 0 { -1 } else { 0 }),
                    ;
                    assert(self.attacks(tc + k * dc, tr + k * dr, t));
                    if dc == 1 && dr == 1 {
                        let pp = d0.unwrap();
                        assert(attackers@.contains(pp));
                        self.witness_at(attackers@, pp, fc, fr);
                    } else if dc == 1 && dr == -1 {
                        let pp = d1.unwrap();
                        assert(attackers@.contains(pp));
                        self.witness_at(attackers@, pp, fc, fr);
                    } else if dc == -1 && dr == 1 {
                        let pp = d2.unwrap();
                        assert(attackers@.contains(pp));
                        self.witness_at(attackers@, pp, fc, fr);
                    } else if dc == -1 && dr == -1 {
                        let pp = d3.unwrap();
                        assert(attackers@.contains(pp));
                        self.witness_at(attackers@, pp, fc, fr);
                    } else if dc == 0 && dr == 1 {
                        let pp = v0.unwrap();
                        assert(attackers@.contains(pp));
                        self.witness_at(attackers@, pp, fc, fr);
                    } else if dc == 0 && dr == -1 {
                        let pp = v1.unwrap();
                        assert(attackers@.contains(pp));
                        self.witness_at(attackers@, pp, fc, fr);
                    } else if dc == 1 && dr == 0 {
                        let pp = v2.unwrap();
                        assert(attackers@.contains(pp));
                        self.witness_at(attackers@, pp, fc, fr);
                    } else {
                        assert(dc == -1 && dr == 0);
                        let pp = v3.unwrap();
                        assert(attackers@.contains(pp));
                        self.witness_at(attackers@, pp, fc, fr);
                    }
                }
            }
        }

        if attackers.len() > 0 {
            proof {
                assert forall|i: int| 0 <= i < attackers@.len() implies ({
                    let pp = #[trigger] attackers@[i];
                    &&& pp.position.wf()
                    &&& self.spec_piece(pp.position) == Some(pp.piece)
                    &&& self.attacks(pp.position.col as int, pp.position.row as int, t)
                }) by {
                    assert(attackers@.contains(attackers@[i]));
                }
            }
            Some(attackers)
        } else {
            proof {
                assert forall|fc: int, fr: int| !self.attacks(fc, fr, t) by {
                    if self.attacks(fc, fr, t) {
                        assert(exists|i: int|
                            0 <= i < attackers@.len() && attackers@[i].position.col == fc
                                && attackers@[i].position.row == fr);
                    }
                }
            }
            None
        }
    }

    /// Helper for membership witnesses: an element of the list whose
    /// square is the given one yields the existential the contract
    /// states.
    proof fn witness_at(self, s: Seq<PiecePos>, pp: PiecePos, fc: int, fr: int)
        requires
            s.contains(pp),
            pp.position.col == fc,
            pp.position.row == fr,
        ensures
            exists|i: int| 0 <= i < s.len() && s[i].position.col == fc && s[i].position.row == fr,
    {
        let i = choose|i: int| 0 <= i < s.len() && s[i] == pp;
        assert(0 <= i < s.len() && s[i].position.col == fc && s[i].position.row == fr);
    }
}

/// A candidate move of one piece.
struct RawMove {
    from: Position,
    to: Position,
}

impl Board {
    /// Candidate moves of the piece on the given square. Move
    /// generation is not wired up: the list is always empty, so the
    /// escape search of `is_checkmate` finds no escapes.
    fn moves(&self, piece: Position) -> (r: Vec<RawMove>)
        ensures
            r@.len() == 0,
    {
        Vec::new()
    }

    /// Tests the given player's king: `No` when the player has no
    /// king or the king's square is unattacked, otherwise `Checkmate`
    /// (with move generation unwired, no escape move is ever found;
    /// `Check` is unreachable). The board is left as it was. The
    /// second clause of the contract speaks of boards whose player
    /// has exactly one king, as every real game position does.
    pub fn is_checkmate(&mut self, player_color: Color) -> (r: CheckMate)
        requires
            old(self).wf(),
        ensures
            *final(self) == *old(self),
            (forall|c: int, rw: int| !old(self).king_at(c, rw, player_color)) ==> r
                == CheckMate::No,
            forall|kc: int, kr: int|
                (#[trigger] old(self).king_at(kc, kr, player_color) && (forall|c: int, rw: int|
                    old(self).king_at(c, rw, player_color) ==> c == kc && rw == kr)) ==> r == (
                if exists|fc: int, fr: int|
                    #[trigger] old(self).attacks(
                        fc,
                        fr,
                        Position { col: kc as u8, row: kr as u8 },
                    ) {
                    CheckMate::Checkmate
                } else {
                    CheckMate::No
                }),
    {
        let king = match self.find_king(player_color) {
            Some(k) => k,
            None => {
                return CheckMate::No;
            },
        };
        let king_pos = king.position();

        let attackers = self.attackers_on_position(king_pos);
        if attackers.is_none() {
            proof {
                assert forall|kc: int, kr: int|
                    (#[trigger] self.king_at(kc, kr, player_color) && (forall|c: int, rw: int|
                        self.king_at(c, rw, player_color) ==> c == kc && rw == kr)) implies !(
                exists|fc: int, fr: int|
                    #[trigger] self.attacks(fc, fr, Position { col: kc as u8, row: kr as u8 })) by {
                    assert(self.king_at(
                        king_pos.col as int,
                        king_pos.row as int,
                        player_color,
                    ));
                    assert(kc == king_pos.col as int && kr == king_pos.row as int);
                    assert((Position { col: kc as u8, row: kr as u8 }) == king_pos);
                }
            }
            return CheckMate::No;
        }

        let mut our_pieces_pos: Vec<Position> = Vec::new();
        let mut row: u8 = 0;
        while row < 14
            invariant
                self.wf(),
                row <= 14,
                forall|i: int| 0 <= i < our_pieces_pos@.len() ==> (#[trigger] our_pieces_pos@[i]).wf(),
            decreases 14 - row,
        {
            let mut col: u8 = 0;
            while col < 14
                invariant
                    self.wf(),
                    row < 14,
                    col <= 14,
                    forall|i: int|
                        0 <= i < our_pieces_pos@.len() ==> (#[trigger] our_pieces_pos@[i]).wf(),
                decreases 14 - col,
            {
                if let Some(position) = Position::try_from_indices(col as i32, row as i32) {
                    if let Some(piece) = self.piece(position) {
                        if piece.color == player_color {
                            our_pieces_pos.push(position);
                        }
                    }
                }
                col = col + 1;
            }
            row = row + 1;
        }

        let ghost orig = *self;
        let mut i: usize = 0;
        while i < our_pieces_pos.len()
            invariant
                *self == orig,
                orig.wf(),
                i <= our_pieces_pos@.len(),
                forall|j: int| 0 <= j < our_pieces_pos@.len() ==> (#[trigger] our_pieces_pos@[j]).wf(),
            decreases our_pieces_pos@.len() - i,
        {
            let piece_pos = our_pieces_pos[i];
            let mvs = self.moves(piece_pos);
            let mut j: usize = 0;
            while j < mvs.len()
                invariant
                    mvs@.len() == 0,
                    j == 0,
                    *self == orig,
                    orig.wf(),
                decreases mvs@.len() - j,
            {
                let mv_from = mvs[j].from;
                let mv_to = mvs[j].to;
                self.restorable_piece_move(mv_from, mv_to);
                if self.attackers_on_position(king_pos).is_none() {
                    self.restore_move();
                    return CheckMate::Check;
                }
                self.restore_move();
                j = j + 1;
            }
            i = i + 1;
        }

        proof {
            assert(self.king_at(king_pos.col as int, king_pos.row as int, player_color));
            assert forall|kc: int, kr: int|
                (#[trigger] self.king_at(kc, kr, player_color) && (forall|c: int, rw: int|
                    self.king_at(c, rw, player_color) ==> c == kc && rw == kr)) implies (exists|
                fc: int,
                fr: int,
            |
                #[trigger] self.attacks(fc, fr, Position { col: kc as u8, row: kr as u8 })) by {
                assert(kc == king_pos.col as int && kr == king_pos.row as int);
                assert((Position { col: kc as u8, row: kr as u8 }) == king_pos);
                let v = attackers.unwrap();
                assert(self.attacks(
                    v@[0].position.col as int,
                    v@[0].position.row as int,
                    king_pos,
                ));
                assert(self.attacks(
                    v@[0].position.col as int,
                    v@[0].position.row as int,
                    Position { col: kc as u8, row: kr as u8 },
                ));
            }
        }
        CheckMate::Checkmate
    }
}

/// Everything castling with one rook needs: the squares between rook
/// and king that must be empty, the squares the king crosses that
/// must be unattacked, and where rook and king end up.
pub struct CastlingPattern {
    pub space_between: Vec<Position>,
    pub king_path: Vec<Position>,
    pub rook_end_pos: Position,
    pub king_end_pos: Position,
}

/// The castling pattern for a rook and king square pair, as data:
/// squares between, king path, rook target, king target. Two patterns
/// exist per arm, one for each rook.
pub open spec fn spec_castling_pattern(rook: Position, king: Position) -> Option<
    (Seq<Position>, Seq<Position>, Position, Position),
> {
    if rook == (Position { col: 3, row: 0 }) && king == (Position { col: 7, row: 0 }) {
        Some(
            (
                seq![
                    Position { col: 4, row: 0 },
                    Position { col: 5, row: 0 },
                    Position { col: 6, row: 0 },
                ],
                seq![Position { col: 6, row: 0 }, Position { col: 5, row: 0 }],
                Position { col: 6, row: 0 },
                Position { col: 5, row: 0 },
            ),
        )
    } else if rook == (Position { col: 10, row: 0 }) && king == (Position { col: 7, row: 0 }) {
        Some(
            (
                seq![Position { col: 8, row: 0 }, Position { col: 9, row: 0 }],
                seq![Position { col: 8, row: 0 }, Position { col: 9, row: 0 }],
                Position { col: 8, row: 0 },
                Position { col: 9, row: 0 },
            ),
        )
    } else if rook == (Position { col: 0, row: 10 }) && king == (Position { col: 0, row: 7 }) {
        Some(
            (
                seq![Position { col: 0, row: 9 }, Position { col: 0, row: 8 }],
                seq![Position { col: 0, row: 8 }, Position { col: 0, row: 9 }],
                Position { col: 0, row: 8 },
                Position { col: 0, row: 9 },
            ),
        )
    } else if rook == (Position { col: 0, row: 3 }) && king == (Position { col: 0, row: 7 }) {
        Some(
            (
                seq![
                    Position { col: 0, row: 4 },
                    Position { col: 0, row: 5 },
                    Position { col: 0, row: 6 },
                ],
                seq![Position { col: 0, row: 6 }, Position { col: 0, row: 5 }],
                Position { col: 0, row: 6 },
                Position { col: 0, row: 5 },
            ),
        )
    } else if rook == (Position { col: 10, row: 13 }) && king == (Position { col: 6, row: 13 }) {
        Some(
            (
                seq![
                    Position { col: 9, row: 13 },
                    Position { col: 8, row: 13 },
                    Position { col: 7, row: 13 },
                ],
                seq![Position { col: 7, row: 13 }, Position { col: 8, row: 13 }],
                Position { col: 7, row: 13 },
                Position { col: 8, row: 13 },
            ),
        )
    } else if rook == (Position { col: 3, row: 13 }) && king == (Position { col: 6, row: 13 }) {
        Some(
            (
                seq![Position { col: 4, row: 13 }, Position { col: 5, row: 13 }],
                seq![Position { col: 5, row: 13 }, Position { col: 4, row: 13 }],
                Position { col: 5, row: 13 },
                Position { col: 4, row: 13 },
            ),
        )
    } else if rook == (Position { col: 13, row: 3 }) && king == (Position { col: 13, row: 6 }) {
        Some(
            (
                seq![Position { col: 13, row: 4 }, Position { col: 13, row: 5 }],
                seq![Position { col: 13, row: 5 }, Position { col: 13, row: 4 }],
                Position { col: 13, row: 5 },
                Position { col: 13, row: 4 },
            ),
        )
    } else if rook == (Position { col: 13, row: 10 }) && king == (Position { col: 13, row: 6 }) {
        Some(
            (
                seq![
                    Position { col: 13, row: 9 },
                    Position { col: 13, row: 8 },
                    Position { col: 13, row: 7 },
                ],
                seq![Position { col: 13, row: 7 }, Position { col: 13, row: 8 }],
                Position { col: 13, row: 7 },
                Position { col: 13, row: 8 },
            ),
        )
    } else {
        None
    }
}

/// Looks up the castling pattern for a rook and king square pair.
pub fn castling_pattern(rook: Position, king: Position) -> (r: Option<CastlingPattern>)
    ensures
        r is Some <==> spec_castling_pattern(rook, king) is Some,
        r matches Some(cp) ==> spec_castling_pattern(rook, king) == Some(
            (cp.space_between@, cp.king_path@, cp.rook_end_pos, cp.king_end_pos),
        ),
        r matches Some(cp) ==> ({
            &&& forall|i: int| 0 <= i < cp.space_between@.len() ==> (#[trigger] cp.space_between@[i]).wf()
            &&& forall|i: int| 0 <= i < cp.king_path@.len() ==> (#[trigger] cp.king_path@[i]).wf()
            &&& cp.rook_end_pos.wf()
            &&& cp.king_end_pos.wf()
        }),
{
    let r = if rook.col == 3 && rook.row == 0 && king.col == 7 && king.row == 0 {
        Some(
            CastlingPattern {
                space_between: vec![
                    Position { col: 4, row: 0 },
                    Position { col: 5, row: 0 },
                    Position { col: 6, row: 0 },
                ],
                king_path: vec![Position { col: 6, row: 0 }, Position { col: 5, row: 0 }],
                rook_end_pos: Position { col: 6, row: 0 },
                king_end_pos: Position { col: 5, row: 0 },
            },
        )
    } else if rook.col == 10 && rook.row == 0 && king.col == 7 && king.row == 0 {
        Some(
            CastlingPattern {
                space_between: vec![Position { col: 8, row: 0 }, Position { col: 9, row: 0 }],
                king_path: vec![Position { col: 8, row: 0 }, Position { col: 9, row: 0 }],
                rook_end_pos: Position { col: 8, row: 0 },
                king_end_pos: Position { col: 9, row: 0 },
            },
        )
    } else if rook.col == 0 && rook.row == 10 && king.col == 0 && king.row == 7 {
        Some(
            CastlingPattern {
                space_between: vec![Position { col: 0, row: 9 }, Position { col: 0, row: 8 }],
                king_path: vec![Position { col: 0, row: 8 }, Position { col: 0, row: 9 }],
                rook_end_pos: Position { col: 0, row: 8 },
                king_end_pos: Position { col: 0, row: 9 },
            },
        )
    } else if rook.col == 0 && rook.row == 3 && king.col == 0 && king.row == 7 {
        Some(
            CastlingPattern {
                space_between: vec![
                    Position { col: 0, row: 4 },
                    Position { col: 0, row: 5 },
                    Position { col: 0, row: 6 },
                ],
                king_path: vec![Position { col: 0, row: 6 }, Position { col: 0, row: 5 }],
                rook_end_pos: Position { col: 0, row: 6 },
                king_end_pos: Position { col: 0, row: 5 },
            },
        )
    } else if rook.col == 10 && rook.row == 13 && king.col == 6 && king.row == 13 {
        Some(
            CastlingPattern {
                space_between: vec![
                    Position { col: 9, row: 13 },
                    Position { col: 8, row: 13 },
                    Position { col: 7, row: 13 },
                ],
                king_path: vec![Position { col: 7, row: 13 }, Position { col: 8, row: 13 }],
                rook_end_pos: Position { col: 7, row: 13 },
                king_end_pos: Position { col: 8, row: 13 },
            },
        )
    } else if rook.col == 3 && rook.row == 13 && king.col == 6 && king.row == 13 {
        Some(
            CastlingPattern {
                space_between: vec![Position { col: 4, row: 13 }, Position { col: 5, row: 13 }],
                king_path: vec![Position { col: 5, row: 13 }, Position { col: 4, row: 13 }],
                rook_end_pos: Position { col: 5, row: 13 },
                king_end_pos: Position { col: 4, row: 13 },
            },
        )
    } else if rook.col == 13 && rook.row == 3 && king.col == 13 && king.row == 6 {
        Some(
            CastlingPattern {
                space_between: vec![Position { col: 13, row: 4 }, Position { col: 13, row: 5 }],
                king_path: vec![Position { col: 13, row: 5 }, Position { col: 13, row: 4 }],
                rook_end_pos: Position { col: 13, row: 5 },
                king_end_pos: Position { col: 13, row: 4 },
            },
        )
    } else if rook.col == 13 && rook.row == 10 && king.col == 13 && king.row == 6 {
        Some(
            CastlingPattern {
                space_between: vec![
                    Position { col: 13, row: 9 },
                    Position { col: 13, row: 8 },
                    Position { col: 13, row: 7 },
                ],
                king_path: vec![Position { col: 13, row: 7 }, Position { col: 13, row: 8 }],
                rook_end_pos: Position { col: 13, row: 7 },
                king_end_pos: Position { col: 13, row: 8 },
            },
        )
    } else {
        None
    };
    r
}

} // verus!
