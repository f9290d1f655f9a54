//! The king's movement rule (one step to the eight adjacent squares, plus
//! the two castling commands) together with king safety: which squares are
//! attacked, and whether a color's king stands in check. Castling is joint
//! king-and-rook state, so the attack machinery lives here with the king.

use vstd::prelude::*;
use crate::chess_board::{
    abs_d, abs_diff, diag_line, ortho_line, path_clear, spec_castle_right, BoardView, ChessBoard,
};
use crate::chess_piece::{ChessPiece, Color, PieceKind};
use crate::knight_model::knight_jump;
use crate::move_command::MoveCommandType;
use crate::pawn_model::pawn_dir;

verus! {

/// The two squares are one king step apart.
pub open spec fn king_step(r0: int, c0: int, er: int, ec: int) -> bool {
    abs_d(r0, er) <= 1 && abs_d(c0, ec) <= 1 && !(r0 == er && c0 == ec)
}

/// The back rank of the color: the rank its king and rooks start on.
pub open spec fn home_row(v: BoardView, col: Color) -> int {
    if col == Color::White {
        0
    } else {
        v.height - 1
    }
}

/// The piece `p` standing on `(r0, c0)` attacks the square `(r, c)`: it
/// could capture there if an enemy stood on it. A pawn attacks only its two
/// forward diagonals; sliders attack along clear lines; the occupancy of
/// the attacked square itself is never consulted.
pub open spec fn piece_attacks(
    v: BoardView,
    p: ChessPiece,
    r0: int,
    c0: int,
    r: int,
    c: int,
) -> bool {
    match p.kind {
        PieceKind::Pawn => r == r0 + pawn_dir(p.color) && abs_d(c, c0) == 1,
        PieceKind::Knight => knight_jump(r0, c0, r, c),
        PieceKind::Bishop => diag_line(r0, c0, r, c) && path_clear(v, r0, c0, r, c),
        PieceKind::Rook => ortho_line(r0, c0, r, c) && path_clear(v, r0, c0, r, c),
        PieceKind::Queen => (diag_line(r0, c0, r, c) || ortho_line(r0, c0, r, c)) && path_clear(
            v,
            r0,
            c0,
            r,
            c,
        ),
        PieceKind::King => king_step(r0, c0, r, c),
    }
}

/// A piece of color `by` stands on `(ar, ac)` and attacks `(r, c)`.
pub open spec fn attacker_at(v: BoardView, ar: int, ac: int, r: int, c: int, by: Color) -> bool {
    v.in_bounds(ar, ac) && match v.sq(ar, ac) {
        Some(p) => p.color == by && piece_attacks(v, p, ar, ac, r, c),
        None => false,
    }
}

/// Some piece of color `by` attacks the square `(r, c)`.
pub open spec fn square_attacked(v: BoardView, r: int, c: int, by: Color) -> bool {
    exists|ar: int, ac: int| attacker_at(v, ar, ac, r, c, by)
}

/// A king of the given color stands on `(r, c)`.
pub open spec fn king_at(v: BoardView, r: int, c: int, col: Color) -> bool {
    v.in_bounds(r, c) && match v.sq(r, c) {
        Some(p) => p.kind == PieceKind::King && p.color == col,
        None => false,
    }
}

/// The given color's king is attacked by the opponent.
pub open spec fn in_check(v: BoardView, col: Color) -> bool {
    exists|r: int, c: int|
        #[trigger] king_at(v, r, c, col) && square_attacked(v, r, c, col.spec_opposite())
}

/// Castling on the given side is available to the king `p` standing on
/// `(r0, c0)`: standard 8-wide geometry, the right not yet revoked, the
/// friendly rook on its corner, the squares between king and rook empty,
/// and the king neither in check nor passing through or landing on an
/// attacked square.
pub open spec fn castle_ok(
    v: BoardView,
    p: ChessPiece,
    r0: int,
    c0: int,
    kingside: bool,
) -> bool {
    let hr = home_row(v, p.color);
    let rook_col: int = if kingside {
        v.width - 1
    } else {
        0
    };
    let enemy = p.color.spec_opposite();
    &&& v.width == 8 && v.height == 8
    &&& r0 == hr && c0 == 4
    &&& spec_castle_right(v, p.color, kingside)
    &&& match v.sq(hr, rook_col) {
        Some(q) => q.kind == PieceKind::Rook && q.color == p.color,
        None => false,
    }
    &&& if kingside {
        v.empty_at(hr, 5) && v.empty_at(hr, 6)
    } else {
        v.empty_at(hr, 1) && v.empty_at(hr, 2) && v.empty_at(hr, 3)
    }
    &&& !square_attacked(v, hr, 4, enemy)
    &&& if kingside {
        !square_attacked(v, hr, 5, enemy) && !square_attacked(v, hr, 6, enemy)
    } else {
        !square_attacked(v, hr, 3, enemy) && !square_attacked(v, hr, 2, enemy)
    }
}

/// What a king standing on `(r0, c0)` may do on `(er, ec)`: one step onto
/// any adjacent square not holding a friendly piece, or one of the two
/// castling commands when the corresponding side is available.
pub open spec fn king_target(
    v: BoardView,
    p: ChessPiece,
    r0: int,
    c0: int,
    er: int,
    ec: int,
) -> Option<MoveCommandType> {
    if king_step(r0, c0, er, ec) && v.can_land(p.color, er, ec) {
        Some(v.land_kind(p.color, er, ec))
    } else if castle_ok(v, p, r0, c0, true) && er == home_row(v, p.color) && ec == 6 {
        Some(MoveCommandType::KingSideCastle)
    } else if castle_ok(v, p, r0, c0, false) && er == home_row(v, p.color) && ec == 2 {
        Some(MoveCommandType::QueenSideCastle)
    } else {
        None
    }
}

pub(crate) fn piece_attacks_ex(
    b: &ChessBoard,
    p: ChessPiece,
    ar: u32,
    ac: u32,
    r: u32,
    c: u32,
) -> (res: bool)
    requires
        b.wf(),
        b@.in_bounds(ar as int, ac as int),
        b@.in_bounds(r as int, c as int),
    ensures
        res == piece_attacks(b@, p, ar as int, ac as int, r as int, c as int),
{
    match p.kind {
        PieceKind::Pawn => {
            let d: i64 = if p.color == Color::White {
                1
            } else {
                -1
            };
            r as i64 == ar as i64 + d && abs_diff(c, ac) == 1
        },
        PieceKind::Knight => {
            let adr = abs_diff(ar, r);
            let adc = abs_diff(ac, c);
            (adr == 1 && adc == 2) || (adr == 2 && adc == 1)
        },
        PieceKind::Bishop => {
            let diag = ar != r && ac != c && abs_diff(ar, r) == abs_diff(ac, c);
            diag && b.path_clear_ex(ar, ac, r, c)
        },
        PieceKind::Rook => {
            let ortho = (ar == r && ac != c) || (ar != r && ac == c);
            ortho && b.path_clear_ex(ar, ac, r, c)
        },
        PieceKind::Queen => {
            let diag = ar != r && ac != c && abs_diff(ar, r) == abs_diff(ac, c);
            let ortho = (ar == r && ac != c) || (ar != r && ac == c);
            (diag || ortho) && b.path_clear_ex(ar, ac, r, c)
        },
        PieceKind::King => {
            let adr = abs_diff(ar, r);
            let adc = abs_diff(ac, c);
            adr <= 1 && adc <= 1 && !(adr == 0 && adc == 0)
        },
    }
}

/// Scans the whole board for a piece of color `by` attacking `(r, c)`.
pub(crate) fn square_attacked_ex(b: &ChessBoard, r: u32, c: u32, by: Color) -> (res: bool)
    requires
        b.wf(),
        b@.in_bounds(r as int, c as int),
    ensures
        res == square_attacked(b@, r as int, c as int, by),
{
    let h = b.height();
    let w = b.width();
    let mut ar: u32 = 0;
    while ar < h
        invariant
            b.wf(),
            b@.in_bounds(r as int, c as int),
            h as int == b@.height,
            w as int == b@.width,
            ar <= h,
            forall|i: int, j: int|
                0 <= i < ar as int && 0 <= j < w as int ==> !attacker_at(
                    b@,
                    i,
                    j,
                    r as int,
                    c as int,
                    by,
                ),
        decreases h - ar,
    {
        let mut ac: u32 = 0;
        while ac < w
            invariant
                b.wf(),
                b@.in_bounds(r as int, c as int),
                h as int == b@.height,
                w as int == b@.width,
                ar < h,
                ac <= w,
                forall|i: int, j: int|
                    0 <= i < ar as int && 0 <= j < w as int ==> !attacker_at(
                        b@,
                        i,
                        j,
                        r as int,
                        c as int,
                        by,
                    ),
                forall|j: int|
                    0 <= j < ac as int ==> !attacker_at(b@, ar as int, j, r as int, c as int, by),
            decreases w - ac,
        {
            let hit = match b.cell(ar, ac) {
                Some(p) => p.color == by && piece_attacks_ex(b, p, ar, ac, r, c),
                None => false,
            };
            if hit {
                proof {
                    assert(attacker_at(b@, ar as int, ac as int, r as int, c as int, by));
                }
                return true;
            }
            ac = ac + 1;
        }
        ar = ar + 1;
    }
    proof {
        assert forall|i: int, j: int| !attacker_at(b@, i, j, r as int, c as int, by) by {
            if !(0 <= i < b@.height && 0 <= j < b@.width) {
                assert(!b@.in_bounds(i, j));
            }
        };
    }
    false
}

/// Scans the whole board for a king of the given color standing in check.
pub(crate) fn in_check_ex(b: &ChessBoard, col: Color) -> (res: bool)
    requires
        b.wf(),
    ensures
        res == in_check(b@, col),
{
    let h = b.height();
    let w = b.width();
    let enemy = col.opposite();
    let mut r: u32 = 0;
    while r < h
        invariant
            b.wf(),
            h as int == b@.height,
            w as int == b@.width,
            enemy == col.spec_opposite(),
            r <= h,
            forall|i: int, j: int|
                0 <= i < r as int && 0 <= j < w as int ==> !(#[trigger] king_at(b@, i, j, col)
                    && square_attacked(b@, i, j, col.spec_opposite())),
        decreases h - r,
    {
        let mut c: u32 = 0;
        while c < w
            invariant
                b.wf(),
                h as int == b@.height,
                w as int == b@.width,
                enemy == col.spec_opposite(),
                r < h,
                c <= w,
                forall|i: int, j: int|
                    0 <= i < r as int && 0 <= j < w as int ==> !(#[trigger] king_at(b@, i, j, col)
                        && square_attacked(b@, i, j, col.spec_opposite())),
                forall|j: int|
                    0 <= j < c as int ==> !(#[trigger] king_at(b@, r as int, j, col)
                        && square_attacked(b@, r as int, j, col.spec_opposite())),
            decreases w - c,
        {
            let is_king = match b.cell(r, c) {
                Some(p) => p.kind == PieceKind::King && p.color == col,
                None => false,
            };
            if is_king {
                if square_attacked_ex(b, r, c, enemy) {
                    proof {
                        assert(king_at(b@, r as int, c as int, col));
                    }
                    return true;
                }
            }
            c = c + 1;
        }
        r = r + 1;
    }
    proof {
        assert forall|i: int, j: int|
            !(#[trigger] king_at(b@, i, j, col) && square_attacked(
                b@,
                i,
                j,
                col.spec_opposite(),
            )) by {
            if !(0 <= i < b@.height && 0 <= j < b@.width) {
                assert(!b@.in_bounds(i, j));
            }
        };
    }
    false
}

pub(crate) fn castle_cond_ex(b: &ChessBoard, p: ChessPiece, kingside: bool) -> (res: bool)
    requires
        b.wf(),
        b@.width == 8,
        b@.height == 8,
    ensures
        res == castle_ok(b@, p, home_row(b@, p.color), 4, kingside),
{
    let white = p.color == Color::White;
    let hr: u32 = if white {
        0
    } else {
        7
    };
    let rook_col: u32 = if kingside {
        7
    } else {
        0
    };
    let enemy = p.color.opposite();
    if !b.castle_right(p.color, kingside) {
        return false;
    }
    let rook_ok = match b.cell(hr, rook_col) {
        Some(q) => q.kind == PieceKind::Rook && q.color == p.color,
        None => false,
    };
    if !rook_ok {
        return false;
    }
    let empt = if kingside {
        b.cell(hr, 5).is_none() && b.cell(hr, 6).is_none()
    } else {
        b.cell(hr, 1).is_none() && b.cell(hr, 2).is_none() && b.cell(hr, 3).is_none()
    };
    if !empt {
        return false;
    }
    if square_attacked_ex(b, hr, 4, enemy) {
        return false;
    }
    if kingside {
        !square_attacked_ex(b, hr, 5, enemy) && !square_attacked_ex(b, hr, 6, enemy)
    } else {
        !square_attacked_ex(b, hr, 3, enemy) && !square_attacked_ex(b, hr, 2, enemy)
    }
}

pub(crate) fn king_target_ex(
    b: &ChessBoard,
    p: ChessPiece,
    r0: u32,
    c0: u32,
    er: u32,
    ec: u32,
) -> (r: Option<MoveCommandType>)
    requires
        b.wf(),
        b@.in_bounds(r0 as int, c0 as int),
        b@.in_bounds(er as int, ec as int),
    ensures
        r == king_target(b@, p, r0 as int, c0 as int, er as int, ec as int),
{
    let adr = abs_diff(r0, er);
    let adc = abs_diff(c0, ec);
    let step = adr <= 1 && adc <= 1 && !(adr == 0 && adc == 0);
    if step && b.can_land_ex(p.color, er, ec) {
        Some(b.land_kind_ex(p.color, er, ec))
    } else if b.width() == 8 && b.height() == 8 {
        let white = p.color == Color::White;
        let hr: u32 = if white {
            0
        } else {
            7
        };
        if r0 == hr && c0 == 4 && er == hr && ec == 6 && castle_cond_ex(b, p, true) {
            Some(MoveCommandType::KingSideCastle)
        } else if r0 == hr && c0 == 4 && er == hr && ec == 2 && castle_cond_ex(b, p, false) {
            Some(MoveCommandType::QueenSideCastle)
        } else {
            None
        }
    } else {
        None
    }
}

} // verus!
