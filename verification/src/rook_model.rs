//! The rook's movement rule: the four orthogonal rays, with the same
//! sliding rule as the bishop. The two castling commands are generated by
//! the king, not the rook, since castling legality is joint king-and-rook
//! state.

use vstd::prelude::*;
use crate::chess_board::{abs_diff, ortho_line, path_clear, BoardView, ChessBoard};
use crate::chess_piece::ChessPiece;
use crate::move_command::MoveCommandType;

verus! {

/// What a rook standing on `(r0, c0)` may do on `(er, ec)`: land on any
/// distinct square of its rank or file whose intervening squares are all
/// empty and that does not hold a friendly piece.
pub open spec fn rook_target(
    v: BoardView,
    p: ChessPiece,
    r0: int,
    c0: int,
    er: int,
    ec: int,
) -> Option<MoveCommandType> {
    if ortho_line(r0, c0, er, ec) && path_clear(v, r0, c0, er, ec) && v.can_land(p.color, er, ec) {
        Some(v.land_kind(p.color, er, ec))
    } else {
        None
    }
}

pub(crate) fn rook_target_ex(
    b: &ChessBoard,
    p: ChessPiece,
    r0: u32,
    c0: u32,
    er: u32,
    ec: u32,
) -> (r: Option<MoveCommandType>)
    requires
        b.wf(),
        b@.in_bounds(r0 as int, c0 as int),
        b@.in_bounds(er as int, ec as int),
    ensures
        r == rook_target(b@, p, r0 as int, c0 as int, er as int, ec as int),
{
    let ortho = (r0 == er && c0 != ec) || (r0 != er && c0 == ec);
    if ortho && b.path_clear_ex(r0, c0, er, ec) && b.can_land_ex(p.color, er, ec) {
        Some(b.land_kind_ex(p.color, er, ec))
    } else {
        None
    }
}

} // verus!
