//! The pawn's movement rule: single push, double step from an unmoved pawn,
//! diagonal captures, en passant, and promotion at the farthest rank.

use vstd::prelude::*;
use crate::chess_board::{abs_d, abs_diff, BoardView, ChessBoard};
use crate::chess_piece::{pseudo_legal, ChessPiece, Color, PieceKind};
use crate::move_command::{MoveCommand, MoveCommandType};

verus! {

/// The row direction a pawn of this color advances in: White toward higher
/// rows, Black toward lower rows.
pub open spec fn pawn_dir(c: Color) -> int {
    if c == Color::White {
        1
    } else {
        -1
    }
}

/// The farthest rank for the color; a pawn reaching it promotes.
pub open spec fn last_rank(v: BoardView, c: Color) -> int {
    if c == Color::White {
        v.height - 1
    } else {
        0
    }
}

/// What a pawn owned by `p.color` standing on `(r0, c0)` may do on
/// `(er, ec)`: advance one square onto an empty square (`Promote` when that
/// square is the farthest rank), advance two squares when it has never moved
/// and both squares are empty (`PawnOpenMove`), capture one square
/// diagonally forward onto an enemy square (`Promote` at the farthest rank),
/// or capture onto the pending en-passant target square (`Enpassant`).
pub open spec fn pawn_target(
    v: BoardView,
    p: ChessPiece,
    r0: int,
    c0: int,
    er: int,
    ec: int,
) -> Option<MoveCommandType> {
    let d = pawn_dir(p.color);
    let lr = last_rank(v, p.color);
    if ec == c0 && er == r0 + d && v.empty_at(er, ec) {
        if er == lr {
            Some(MoveCommandType::Promote)
        } else {
            Some(MoveCommandType::Move)
        }
    } else if ec == c0 && er == r0 + 2 * d && p.moves == 0 && v.empty_at(r0 + d, c0)
        && v.empty_at(er, ec) {
        Some(MoveCommandType::PawnOpenMove)
    } else if abs_d(ec, c0) == 1 && er == r0 + d && v.enemy_at(p.color, er, ec) {
        if er == lr {
            Some(MoveCommandType::Promote)
        } else {
            Some(MoveCommandType::Capture)
        }
    } else if abs_d(ec, c0) == 1 && er == r0 + d && v.en_passant == Some((er, ec)) && v.empty_at(
        er,
        ec,
    ) {
        Some(MoveCommandType::Enpassant)
    } else {
        None
    }
}

/// Law: a pawn command that ends on the farthest rank is a promotion. The
/// two kinds excluded by hypothesis are degenerate custom-layout cases —
/// a double step or an en-passant capture aimed directly at the farthest
/// rank — which ordinary play never reaches.
pub proof fn lemma_pawn_promotes_on_last_rank(
    v: BoardView,
    p: ChessPiece,
    r0: int,
    c0: int,
    m: MoveCommand,
)
    requires
        pseudo_legal(v, r0, c0, m),
        v.sq(r0, c0) == Some(p),
        p.kind == PieceKind::Pawn,
        m.end_row as int == last_rank(v, p.color),
        m.move_type != MoveCommandType::PawnOpenMove,
        m.move_type != MoveCommandType::Enpassant,
    ensures
        m.move_type == MoveCommandType::Promote,
{
}

pub(crate) fn pawn_target_ex(
    b: &ChessBoard,
    p: ChessPiece,
    r0: u32,
    c0: u32,
    er: u32,
    ec: u32,
) -> (r: Option<MoveCommandType>)
    requires
        b.wf(),
        b@.in_bounds(r0 as int, c0 as int),
        b@.in_bounds(er as int, ec as int),
    ensures
        r == pawn_target(b@, p, r0 as int, c0 as int, er as int, ec as int),
{
    let white = p.color == Color::White;
    let d: i64 = if white {
        1
    } else {
        -1
    };
    let lr: i64 = if white {
        b.height() as i64 - 1
    } else {
        0
    };
    let r0_i = r0 as i64;
    let er_i = er as i64;
    let one_fwd = er_i == r0_i + d;
    let two_fwd = er_i == r0_i + 2 * d;
    if ec == c0 && one_fwd && b.cell(er, ec).is_none() {
        if er_i == lr {
            Some(MoveCommandType::Promote)
        } else {
            Some(MoveCommandType::Move)
        }
    } else if ec == c0 && two_fwd && p.moves == 0 {
        let mid: u32 = if white {
            r0 + 1
        } else {
            r0 - 1
        };
        if b.cell(mid, c0).is_none() && b.cell(er, ec).is_none() {
            Some(MoveCommandType::PawnOpenMove)
        } else {
            None
        }
    } else if abs_diff(ec, c0) == 1 && one_fwd {
        let diag_enemy = match b.cell(er, ec) {
            Some(q) => q.color != p.color,
            None => false,
        };
        if diag_enemy {
            if er_i == lr {
                Some(MoveCommandType::Promote)
            } else {
                Some(MoveCommandType::Capture)
            }
        } else {
            let is_ep_target = match b.en_passant_target() {
                Some(t) => t.0 == er && t.1 == ec,
                None => false,
            };
            if is_ep_target && b.cell(er, ec).is_none() {
                Some(MoveCommandType::Enpassant)
            } else {
                None
            }
        }
    } else {
        None
    }
}

} // verus!
