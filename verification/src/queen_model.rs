//! The queen's movement rule: the union of the bishop's and the rook's ray
//! sets.

use vstd::prelude::*;
use crate::chess_board::{abs_diff, diag_line, ortho_line, path_clear, BoardView, ChessBoard};
use crate::chess_piece::ChessPiece;
use crate::move_command::MoveCommandType;

verus! {

/// What a queen standing on `(r0, c0)` may do on `(er, ec)`: land on any
/// square a bishop or a rook could slide to from there.
pub open spec fn queen_target(
    v: BoardView,
    p: ChessPiece,
    r0: int,
    c0: int,
    er: int,
    ec: int,
) -> Option<MoveCommandType> {
    if (diag_line(r0, c0, er, ec) || ortho_line(r0, c0, er, ec)) && path_clear(v, r0, c0, er, ec)
        && v.can_land(p.color, er, ec) {
        Some(v.land_kind(p.color, er, ec))
    } else {
        None
    }
}

pub(crate) fn queen_target_ex(
    b: &ChessBoard,
    p: ChessPiece,
    r0: u32,
    c0: u32,
    er: u32,
    ec: u32,
) -> (r: Option<MoveCommandType>)
    requires
        b.wf(),
        b@.in_bounds(r0 as int, c0 as int),
        b@.in_bounds(er as int, ec as int),
    ensures
        r == queen_target(b@, p, r0 as int, c0 as int, er as int, ec as int),
{
    let diag = r0 != er && c0 != ec && abs_diff(r0, er) == abs_diff(c0, ec);
    let ortho = (r0 == er && c0 != ec) || (r0 != er && c0 == ec);
    if (diag || ortho) && b.path_clear_ex(r0, c0, er, ec) && b.can_land_ex(p.color, er, ec) {
        Some(b.land_kind_ex(p.color, er, ec))
    } else {
        None
    }
}

} // verus!
