//! Pieces: the two player colors, the six piece kinds, and the per-kind
//! material and game-phase constants.

use vstd::prelude::*;
use crate::bishop_model::{bishop_target, bishop_target_ex};
use crate::chess_board::{BoardView, ChessBoard};
use crate::king_model::{king_target, king_target_ex};
use crate::knight_model::{knight_target, knight_target_ex};
use crate::move_command::{MoveCommand, MoveCommandType};
use crate::pawn_model::{pawn_target, pawn_target_ex};
use crate::queen_model::{queen_target, queen_target_ex};
use crate::rook_model::{rook_target, rook_target_ex};

verus! {

/// The two player identities. Immutable once assigned to a piece or a turn
/// slot.
#[derive(Clone, Copy, Debug, PartialEq, Eq, Structural)]
pub enum Color {
    White,
    Black,
}

impl Color {
    /// The opposing color.
    pub open spec fn spec_opposite(self) -> Color {
        match self {
            Color::White => Color::Black,
            Color::Black => Color::White,
        }
    }

    pub fn opposite(self) -> (r: Color)
        ensures
            r == self.spec_opposite(),
    {
        match self {
            Color::White => Color::Black,
            Color::Black => Color::White,
        }
    }
}

/// The closed set of piece kinds. Each kind carries its material value and
/// its game-phase weight and dispatches to its own move-generation rule.
#[derive(Clone, Copy, Debug, PartialEq, Eq, Structural)]
pub enum PieceKind {
    Pawn,
    Knight,
    Bishop,
    Rook,
    Queen,
    King,
}

/// A piece on the board: its kind, its owner, and the number of times it has
/// moved (consulted for castling rights and for pawn double-step
/// eligibility).
#[derive(Clone, Copy, Debug, PartialEq, Eq, Structural)]
pub struct ChessPiece {
    pub kind: PieceKind,
    pub color: Color,
    pub moves: u32,
}

/// Material worth in centipawn-like units. The King's value is a sentinel:
/// never traded, it only guarantees that king material dominates any sum.
pub open spec fn spec_piece_value(kind: PieceKind) -> u32 {
    match kind {
        PieceKind::Pawn => 100,
        PieceKind::Knight => 300,
        PieceKind::Bishop => 300,
        PieceKind::Rook => 500,
        PieceKind::Queen => 900,
        PieceKind::King => 10000,
    }
}

/// Contribution to the game-phase accumulator that drives evaluation
/// tapering. With full starting material the weights sum to 24.
pub open spec fn spec_phase_weight(kind: PieceKind) -> u32 {
    match kind {
        PieceKind::Pawn => 0,
        PieceKind::Knight => 1,
        PieceKind::Bishop => 1,
        PieceKind::Rook => 2,
        PieceKind::Queen => 4,
        PieceKind::King => 0,
    }
}

impl ChessPiece {
    pub fn piece_value(&self) -> (v: u32)
        ensures
            v == spec_piece_value(self.kind),
    {
        match self.kind {
            PieceKind::Pawn => 100,
            PieceKind::Knight => 300,
            PieceKind::Bishop => 300,
            PieceKind::Rook => 500,
            PieceKind::Queen => 900,
            PieceKind::King => 10000,
        }
    }

    pub fn phase_weight(&self) -> (w: u32)
        ensures
            w == spec_phase_weight(self.kind),
    {
        match self.kind {
            PieceKind::Pawn => 0,
            PieceKind::Knight => 1,
            PieceKind::Bishop => 1,
            PieceKind::Rook => 2,
            PieceKind::Queen => 4,
            PieceKind::King => 0,
        }
    }
}

/// The single dispatch point of the piece capability: what the piece `p`
/// standing on `(r0, c0)` may do on the square `(er, ec)`, by its kind's
/// movement rule. `None` when the square is not reachable.
pub open spec fn piece_target(
    v: BoardView,
    p: ChessPiece,
    r0: int,
    c0: int,
    er: int,
    ec: int,
) -> Option<MoveCommandType> {
    match p.kind {
        PieceKind::Pawn => pawn_target(v, p, r0, c0, er, ec),
        PieceKind::Knight => knight_target(v, p, r0, c0, er, ec),
        PieceKind::Bishop => bishop_target(v, p, r0, c0, er, ec),
        PieceKind::Rook => rook_target(v, p, r0, c0, er, ec),
        PieceKind::Queen => queen_target(v, p, r0, c0, er, ec),
        PieceKind::King => king_target(v, p, r0, c0, er, ec),
    }
}

pub(crate) fn piece_target_ex(
    b: &ChessBoard,
    p: ChessPiece,
    r0: u32,
    c0: u32,
    er: u32,
    ec: u32,
) -> (r: Option<MoveCommandType>)
    requires
        b.wf(),
        b@.in_bounds(r0 as int, c0 as int),
        b@.in_bounds(er as int, ec as int),
    ensures
        r == piece_target(b@, p, r0 as int, c0 as int, er as int, ec as int),
{
    match p.kind {
        PieceKind::Pawn => pawn_target_ex(b, p, r0, c0, er, ec),
        PieceKind::Knight => knight_target_ex(b, p, r0, c0, er, ec),
        PieceKind::Bishop => bishop_target_ex(b, p, r0, c0, er, ec),
        PieceKind::Rook => rook_target_ex(b, p, r0, c0, er, ec),
        PieceKind::Queen => queen_target_ex(b, p, r0, c0, er, ec),
        PieceKind::King => king_target_ex(b, p, r0, c0, er, ec),
    }
}

/// A pseudo-legal command of the piece standing on `(r0, c0)`: consistent
/// with that piece's movement rule and the board occupancy, with the
/// promotion choice still at its generation default. Whether the command
/// leaves the mover's own king in check is not yet considered here; that
/// filtering is `ChessBoard::apply`'s responsibility.
pub open spec fn pseudo_legal(v: BoardView, r0: int, c0: int, m: MoveCommand) -> bool {
    &&& v.in_bounds(r0, c0)
    &&& m.start_row as int == r0
    &&& m.start_col as int == c0
    &&& v.in_bounds(m.end_row as int, m.end_col as int)
    &&& match v.sq(r0, c0) {
        Some(p) => piece_target(v, p, r0, c0, m.end_row as int, m.end_col as int) == Some(
            m.move_type,
        ),
        None => false,
    }
    &&& m.promotion == PieceKind::Queen
}

} // verus!
