//! Phase-tapered static evaluation: each piece contributes its material
//! value, interpolated between a middlegame and an endgame table by how
//! much phase weight remains on the board, signed positive for White. With
//! the single flat value table the two tables coincide, but the
//! interpolation scaffold stands so a richer two-table scheme can be
//! substituted without touching call sites.

use vstd::prelude::*;
use crate::chess_board::{BoardView, ChessBoard};
use crate::chess_piece::{spec_piece_value, spec_phase_weight, ChessPiece, Color, PieceKind};

verus! {

/// Middlegame material table.
pub open spec fn midgame_value(k: PieceKind) -> int {
    spec_piece_value(k) as int
}

/// Endgame material table; currently identical to the middlegame table.
pub open spec fn endgame_value(k: PieceKind) -> int {
    spec_piece_value(k) as int
}

/// The full-material phase total: both sides' minor pieces, rooks and
/// queens of the starting position sum to 24.
pub open spec fn full_phase() -> int {
    24
}

/// A phase total clamped into the tapering range [0, 24].
pub open spec fn clamp_phase(ph: int) -> int {
    if ph < 0 {
        0
    } else if ph > full_phase() {
        full_phase()
    } else {
        ph
    }
}

/// Linear interpolation between the endgame and middlegame tables by the
/// clamped phase factor `t`: at `t == 24` (full material) the middlegame
/// table weighs fully, at `t == 0` the endgame table does.
pub open spec fn taper(k: PieceKind, t: int) -> int {
    (midgame_value(k) * t + endgame_value(k) * (full_phase() - t)) / full_phase()
}

/// The fixed sign convention: White contributions count positive, Black
/// contributions negative.
pub open spec fn color_sign(c: Color) -> int {
    if c == Color::White {
        1
    } else {
        -1
    }
}

pub open spec fn cell_phase(cell: Option<ChessPiece>) -> int {
    match cell {
        Some(p) => spec_phase_weight(p.kind) as int,
        None => 0,
    }
}

pub open spec fn row_phase(s: Seq<Option<ChessPiece>>) -> int
    decreases s.len(),
{
    if s.len() == 0 {
        0
    } else {
        row_phase(s.drop_last()) + cell_phase(s.last())
    }
}

pub open spec fn grid_phase(g: Seq<Seq<Option<ChessPiece>>>) -> int
    decreases g.len(),
{
    if g.len() == 0 {
        0
    } else {
        grid_phase(g.drop_last()) + row_phase(g.last())
    }
}

/// The total phase weight remaining on the board.
pub open spec fn board_phase(v: BoardView) -> int {
    grid_phase(v.grid)
}

/// The tapering factor of a board: its remaining phase, clamped.
pub open spec fn phase_factor(v: BoardView) -> int {
    clamp_phase(board_phase(v))
}

pub open spec fn cell_score(cell: Option<ChessPiece>, t: int) -> int {
    match cell {
        Some(p) => color_sign(p.color) * taper(p.kind, t),
        None => 0,
    }
}

pub open spec fn row_score(s: Seq<Option<ChessPiece>>, t: int) -> int
    decreases s.len(),
{
    if s.len() == 0 {
        0
    } else {
        row_score(s.drop_last(), t) + cell_score(s.last(), t)
    }
}

pub open spec fn grid_score(g: Seq<Seq<Option<ChessPiece>>>, t: int) -> int
    decreases g.len(),
{
    if g.len() == 0 {
        0
    } else {
        grid_score(g.drop_last(), t) + row_score(g.last(), t)
    }
}

/// The tapered evaluation of a board: the signed, interpolated material
/// sum, a pure function of the board state.
pub open spec fn eval_spec(v: BoardView) -> int {
    grid_score(v.grid, phase_factor(v))
}

/// With identical middlegame and endgame tables, tapering degenerates to
/// the flat material value, whatever the phase factor.
pub proof fn lemma_taper_flat(k: PieceKind, t: int)
    requires
        0 <= t <= 24,
    ensures
        taper(k, t) == midgame_value(k),
{
    match k {
        PieceKind::Pawn => assert((100 * t + 100 * (24 - t)) / 24 == 100),
        PieceKind::Knight => assert((300 * t + 300 * (24 - t)) / 24 == 300),
        PieceKind::Bishop => assert((300 * t + 300 * (24 - t)) / 24 == 300),
        PieceKind::Rook => assert((500 * t + 500 * (24 - t)) / 24 == 500),
        PieceKind::Queen => assert((900 * t + 900 * (24 - t)) / 24 == 900),
        PieceKind::King => assert((10000 * t + 10000 * (24 - t)) / 24 == 10000),
    }
}

proof fn lemma_cell_score_bound(cell: Option<ChessPiece>, t: int)
    requires
        0 <= t <= 24,
    ensures
        -10000 <= cell_score(cell, t) <= 10000,
{
    match cell {
        Some(p) => lemma_taper_flat(p.kind, t),
        None => {},
    }
}

proof fn lemma_row_phase_prefix_bound(s: Seq<Option<ChessPiece>>, n: int)
    requires
        0 <= n <= s.len(),
    ensures
        0 <= row_phase(s.take(n)) <= 4 * n,
    decreases n,
{
    if n == 0 {
        assert(s.take(0) =~= Seq::<Option<ChessPiece>>::empty());
    } else {
        lemma_row_phase_prefix_bound(s, n - 1);
        assert(s.take(n).drop_last() =~= s.take(n - 1));
        assert(s.take(n).last() == s[n - 1]);
    }
}

proof fn lemma_grid_phase_prefix_bound(g: Seq<Seq<Option<ChessPiece>>>, n: int, wd: int)
    requires
        0 <= n <= g.len(),
        0 <= wd,
        forall|i: int| 0 <= i < g.len() ==> (#[trigger] g[i]).len() == wd,
    ensures
        0 <= grid_phase(g.take(n)) <= 4 * n * wd,
    decreases n,
{
    if n == 0 {
        assert(g.take(0) =~= Seq::<Seq<Option<ChessPiece>>>::empty());
    } else {
        lemma_grid_phase_prefix_bound(g, n - 1, wd);
        assert(g.take(n).drop_last() =~= g.take(n - 1));
        assert(g.take(n).last() == g[n - 1]);
        assert(g[n - 1].take(wd) =~= g[n - 1]);
        lemma_row_phase_prefix_bound(g[n - 1], wd);
        assert(4 * (n - 1) * wd + 4 * wd == 4 * n * wd) by (nonlinear_arith);
    }
}

proof fn lemma_row_score_prefix_bound(s: Seq<Option<ChessPiece>>, n: int, t: int)
    requires
        0 <= n <= s.len(),
        0 <= t <= 24,
    ensures
        -(10000 * n) <= row_score(s.take(n), t) <= 10000 * n,
    decreases n,
{
    if n == 0 {
        assert(s.take(0) =~= Seq::<Option<ChessPiece>>::empty());
    } else {
        lemma_row_score_prefix_bound(s, n - 1, t);
        assert(s.take(n).drop_last() =~= s.take(n - 1));
        assert(s.take(n).last() == s[n - 1]);
        lemma_cell_score_bound(s[n - 1], t);
    }
}

proof fn lemma_grid_score_prefix_bound(g: Seq<Seq<Option<ChessPiece>>>, n: int, wd: int, t: int)
    requires
        0 <= n <= g.len(),
        0 <= wd,
        0 <= t <= 24,
        forall|i: int| 0 <= i < g.len() ==> (#[trigger] g[i]).len() == wd,
    ensures
        -(10000 * n * wd) <= grid_score(g.take(n), t) <= 10000 * n * wd,
    decreases n,
{
    if n == 0 {
        assert(g.take(0) =~= Seq::<Seq<Option<ChessPiece>>>::empty());
    } else {
        lemma_grid_score_prefix_bound(g, n - 1, wd, t);
        assert(g.take(n).drop_last() =~= g.take(n - 1));
        assert(g.take(n).last() == g[n - 1]);
        assert(g[n - 1].take(wd) =~= g[n - 1]);
        lemma_row_score_prefix_bound(g[n - 1], wd, t);
        assert(10000 * (n - 1) * wd + 10000 * wd == 10000 * n * wd) by (nonlinear_arith);
    }
}

impl ChessPiece {
    /// This piece's contribution to the tapered evaluation, given the
    /// total remaining phase weight of the board it stands on: its
    /// interpolated material value, positive for White and negative for
    /// Black. The board is this capability's context; the flat tables
    /// consult only the piece itself.
    pub fn computed_value(&self, _board: &ChessBoard, phase_weight_total: u32) -> (s: i32)
        ensures
            s as int == color_sign(self.color) * taper(
                self.kind,
                clamp_phase(phase_weight_total as int),
            ),
    {
        let t: u64 = if phase_weight_total > 24 {
            24
        } else {
            phase_weight_total as u64
        };
        let v: u64 = self.piece_value() as u64;
        proof {
            assert(v <= 10000);
            assert(t as int == clamp_phase(phase_weight_total as int));
            assert((v as int) * (t as int) <= 240000) by (nonlinear_arith)
                requires
                    (v as int) <= 10000,
                    0 <= (v as int),
                    0 <= (t as int) <= 24,
            ;
            assert((v as int) * (24 - (t as int)) <= 240000) by (nonlinear_arith)
                requires
                    (v as int) <= 10000,
                    0 <= (v as int),
                    0 <= (t as int) <= 24,
            ;
        }
        let num: u64 = v * t + v * (24 - t);
        let tap: u64 = num / 24;
        proof {
            lemma_taper_flat(self.kind, t as int);
            assert(tap as int == taper(self.kind, t as int));
            assert(tap <= 10000);
        }
        let tap32: i32 = tap as i32;
        if self.color == Color::White {
            tap32
        } else {
            -tap32
        }
    }
}

impl ChessBoard {
    /// The tapered evaluation of this board: the phase total is summed
    /// over all pieces, clamped to the full-material total, and every
    /// piece contributes its interpolated value, White positive, Black
    /// negative. The area bound keeps the extreme material sum within the
    /// result type.
    pub fn evaluate(&self) -> (s: i32)
        requires
            self.wf(),
            self@.width * self@.height <= 200_000,
        ensures
            s as int == eval_spec(self@),
    {
        let h = self.height();
        let w = self.width();
        let ghost g = self@.grid;
        let mut phase: u64 = 0;
        let mut r: u32 = 0;
        while r < h
            invariant
                self.wf(),
                h as int == self@.height,
                w as int == self@.width,
                g == self@.grid,
                r <= h,
                phase as int == grid_phase(g.take(r as int)),
            decreases h - r,
        {
            let mut rp: u64 = 0;
            let mut c: u32 = 0;
            while c < w
                invariant
                    self.wf(),
                    h as int == self@.height,
                    w as int == self@.width,
                    g == self@.grid,
                    r < h,
                    c <= w,
                    rp as int == row_phase(g[r as int].take(c as int)),
                decreases w - c,
            {
                let pw: u32 = match self.cell(r, c) {
                    Some(p) => p.phase_weight(),
                    None => 0,
                };
                proof {
                    lemma_row_phase_prefix_bound(g[r as int], c as int);
                    assert(g[r as int].take(c as int + 1).drop_last() =~= g[r as int].take(
                        c as int,
                    ));
                    assert(g[r as int].take(c as int + 1).last() == g[r as int][c as int]);
                }
                rp = rp + pw as u64;
                c = c + 1;
            }
            proof {
                assert(g[r as int].take(w as int) =~= g[r as int]);
                lemma_row_phase_prefix_bound(g[r as int], w as int);
                lemma_grid_phase_prefix_bound(g, r as int, w as int);
                assert((r as int) * (w as int) + (w as int) <= (h as int) * (w as int))
                    by (nonlinear_arith)
                    requires
                        (r as int) < (h as int),
                        0 <= (w as int),
                ;
                assert(g.take(r as int + 1).drop_last() =~= g.take(r as int));
                assert(g.take(r as int + 1).last() == g[r as int]);
                assert((h as int) * (w as int) <= u32::MAX as int) by (nonlinear_arith)
                    requires
                        (w as int) * (h as int) <= u32::MAX as int,
                ;
                assert(grid_phase(g.take(r as int)) + row_phase(g[r as int]) <= 4 * (
                u32::MAX as int)) by (nonlinear_arith)
                    requires
                        0 <= grid_phase(g.take(r as int)) <= 4 * (r as int) * (w as int),
                        0 <= row_phase(g[r as int]) <= 4 * (w as int),
                        (r as int) < (h as int),
                        (h as int) * (w as int) <= u32::MAX as int,
                        0 <= (w as int),
                        0 <= (r as int),
                ;
            }
            phase = phase + rp;
            r = r + 1;
        }
        proof {
            assert(g.take(h as int) =~= g);
            assert(phase as int == board_phase(self@));
        }
        let tfactor: u64 = if phase > 24 {
            24
        } else {
            phase
        };
        proof {
            assert(tfactor as int == phase_factor(self@));
        }
        let mut score: i64 = 0;
        let mut r: u32 = 0;
        while r < h
            invariant
                self.wf(),
                self@.width * self@.height <= 200_000,
                h as int == self@.height,
                w as int == self@.width,
                g == self@.grid,
                tfactor <= 24,
                tfactor as int == phase_factor(self@),
                r <= h,
                score as int == grid_score(g.take(r as int), tfactor as int),
            decreases h - r,
        {
            let mut rs: i64 = 0;
            let mut c: u32 = 0;
            while c < w
                invariant
                    self.wf(),
                    h as int == self@.height,
                    w as int == self@.width,
                    g == self@.grid,
                    tfactor <= 24,
                    r < h,
                    c <= w,
                    rs as int == row_score(g[r as int].take(c as int), tfactor as int),
                decreases w - c,
            {
                let cs: i32 = match self.cell(r, c) {
                    Some(p) => p.computed_value(self, tfactor as u32),
                    None => 0,
                };
                proof {
                    assert(cs as int == cell_score(g[r as int][c as int], tfactor as int));
                    lemma_row_score_prefix_bound(g[r as int], c as int, tfactor as int);
                    lemma_cell_score_bound(g[r as int][c as int], tfactor as int);
                    assert(g[r as int].take(c as int + 1).drop_last() =~= g[r as int].take(
                        c as int,
                    ));
                    assert(g[r as int].take(c as int + 1).last() == g[r as int][c as int]);
                }
                rs = rs + cs as i64;
                c = c + 1;
            }
            proof {
                assert(g[r as int].take(w as int) =~= g[r as int]);
                lemma_row_score_prefix_bound(g[r as int], w as int, tfactor as int);
                lemma_grid_score_prefix_bound(g, r as int, w as int, tfactor as int);
                assert((r as int) * (w as int) + (w as int) <= (h as int) * (w as int))
                    by (nonlinear_arith)
                    requires
                        (r as int) < (h as int),
                        0 <= (w as int),
                ;
                assert(g.take(r as int + 1).drop_last() =~= g.take(r as int));
                assert(g.take(r as int + 1).last() == g[r as int]);
                assert((h as int) * (w as int) <= u32::MAX as int) by (nonlinear_arith)
                    requires
                        (w as int) * (h as int) <= u32::MAX as int,
                ;
                assert(-(10000 * (u32::MAX as int)) <= grid_score(g.take(r as int), tfactor as int)
                    + row_score(g[r as int], tfactor as int) <= 10000 * (u32::MAX as int))
                    by (nonlinear_arith)
                    requires
                        -(10000 * (r as int) * (w as int)) <= grid_score(
                            g.take(r as int),
                            tfactor as int,
                        ) <= 10000 * (r as int) * (w as int),
                        -(10000 * (w as int)) <= row_score(g[r as int], tfactor as int) <= 10000 * (
                        w as int),
                        (r as int) < (h as int),
                        (h as int) * (w as int) <= u32::MAX as int,
                        0 <= (w as int),
                        0 <= (r as int),
                ;
            }
            score = score + rs;
            r = r + 1;
        }
        proof {
            assert(g.take(h as int) =~= g);
            lemma_grid_score_prefix_bound(g, h as int, w as int, tfactor as int);
            assert((h as int) * (w as int) <= 200_000) by (nonlinear_arith)
                requires
                    (w as int) * (h as int) <= 200_000,
            ;
            assert(-2_000_000_000 <= score as int <= 2_000_000_000) by (nonlinear_arith)
                requires
                    -(10000 * (h as int) * (w as int)) <= (score as int) <= 10000 * (h as int) * (
                    w as int),
                    (h as int) * (w as int) <= 200_000,
                    0 <= (h as int),
                    0 <= (w as int),
            ;
        }
        score as i32
    }
}

/// The cell with its occupant's color swapped.
pub open spec fn swap_cell(cell: Option<ChessPiece>) -> Option<ChessPiece> {
    match cell {
        Some(p) => Some(ChessPiece { kind: p.kind, color: p.color.spec_opposite(), moves: p.moves }),
        None => None,
    }
}

pub open spec fn swap_row(s: Seq<Option<ChessPiece>>) -> Seq<Option<ChessPiece>> {
    s.map_values(|cell: Option<ChessPiece>| swap_cell(cell))
}

/// The grid with every piece's color swapped, positions untouched.
pub open spec fn swap_grid(g: Seq<Seq<Option<ChessPiece>>>) -> Seq<Seq<Option<ChessPiece>>> {
    g.map_values(|row: Seq<Option<ChessPiece>>| swap_row(row))
}

proof fn lemma_row_swap(s: Seq<Option<ChessPiece>>, t: int)
    ensures
        row_phase(swap_row(s)) == row_phase(s),
        row_score(swap_row(s), t) == -row_score(s, t),
    decreases s.len(),
{
    if s.len() == 0 {
        assert(swap_row(s).len() == 0);
    } else {
        lemma_row_swap(s.drop_last(), t);
        assert(swap_row(s).len() == s.len());
        assert(swap_row(s).drop_last() =~= swap_row(s.drop_last()));
        assert(swap_row(s).last() == swap_cell(s.last()));
        assert(cell_phase(swap_cell(s.last())) == cell_phase(s.last()));
        assert(cell_score(swap_cell(s.last()), t) == -cell_score(s.last(), t));
        assert(row_score(swap_row(s), t) == row_score(swap_row(s).drop_last(), t) + cell_score(
            swap_row(s).last(),
            t,
        ));
        assert(row_phase(swap_row(s)) == row_phase(swap_row(s).drop_last()) + cell_phase(
            swap_row(s).last(),
        ));
    }
}

proof fn lemma_grid_swap(g: Seq<Seq<Option<ChessPiece>>>, t: int)
    ensures
        grid_phase(swap_grid(g)) == grid_phase(g),
        grid_score(swap_grid(g), t) == -grid_score(g, t),
    decreases g.len(),
{
    if g.len() == 0 {
        assert(swap_grid(g).len() == 0);
    } else {
        lemma_grid_swap(g.drop_last(), t);
        assert(swap_grid(g).drop_last() =~= swap_grid(g.drop_last()));
        assert(swap_grid(g).last() == swap_row(g.last()));
        lemma_row_swap(g.last(), t);
    }
}

/// Law: the evaluation is antisymmetric under a full color swap of the
/// pieces. Material-only tables consult no square coordinates, so the
/// mirrored placement of such a board changes nothing else.
pub proof fn lemma_evaluate_color_symmetric(v: BoardView)
    ensures
        eval_spec(BoardView { grid: swap_grid(v.grid), ..v }) == -eval_spec(v),
{
    let sv = BoardView { grid: swap_grid(v.grid), ..v };
    lemma_grid_swap(v.grid, phase_factor(v));
    assert(board_phase(sv) == board_phase(v));
    assert(phase_factor(sv) == phase_factor(v));
}

} // verus!
