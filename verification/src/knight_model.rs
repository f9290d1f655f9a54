//! The knight's movement rule: the eight (1,2)/(2,1) jumps, never blocked
//! by intervening pieces.

use vstd::prelude::*;
use crate::chess_board::{abs_d, abs_diff, BoardView, ChessBoard};
use crate::chess_piece::ChessPiece;
use crate::move_command::MoveCommandType;

verus! {

/// The two squares are a knight's jump apart.
pub open spec fn knight_jump(r0: int, c0: int, er: int, ec: int) -> bool {
    (abs_d(r0, er) == 1 && abs_d(c0, ec) == 2) || (abs_d(r0, er) == 2 && abs_d(c0, ec) == 1)
}

/// What a knight standing on `(r0, c0)` may do on `(er, ec)`: land on any
/// square a knight's jump away that does not hold a friendly piece.
pub open spec fn knight_target(
    v: BoardView,
    p: ChessPiece,
    r0: int,
    c0: int,
    er: int,
    ec: int,
) -> Option<MoveCommandType> {
    if knight_jump(r0, c0, er, ec) && v.can_land(p.color, er, ec) {
        Some(v.land_kind(p.color, er, ec))
    } else {
        None
    }
}

pub(crate) fn knight_target_ex(
    b: &ChessBoard,
    p: ChessPiece,
    r0: u32,
    c0: u32,
    er: u32,
    ec: u32,
) -> (r: Option<MoveCommandType>)
    requires
        b.wf(),
        b@.in_bounds(r0 as int, c0 as int),
        b@.in_bounds(er as int, ec as int),
    ensures
        r == knight_target(b@, p, r0 as int, c0 as int, er as int, ec as int),
{
    let adr = abs_diff(r0, er);
    let adc = abs_diff(c0, ec);
    let jump = (adr == 1 && adc == 2) || (adr == 2 && adc == 1);
    if jump && b.can_land_ex(p.color, er, ec) {
        Some(b.land_kind_ex(p.color, er, ec))
    } else {
        None
    }
}

} // verus!
