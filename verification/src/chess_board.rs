//! The board: a grid of optional piece occupants, the side to move, castling
//! rights and the pending en-passant target, together with the geometric
//! predicates (bounds, occupancy, clear lines) every movement rule consults.

use vstd::prelude::*;
use crate::chess_piece::{piece_target_ex, pseudo_legal, ChessPiece, Color, PieceKind};
use crate::king_model::{home_row, in_check, in_check_ex};
use crate::move_command::{MoveCommand, MoveCommandType};
use crate::pawn_model::pawn_dir;

verus! {

/// Typed failures reported to the caller. Boundary violations are always
/// reported, never clamped.
#[derive(Clone, Copy, Debug, PartialEq, Eq, Structural)]
pub enum ChessError {
    OutOfBounds,
    IllegalMove,
    InvalidPromotionChoice,
}

/// The mathematical model of a board: dimensions, cell contents, side to
/// move, the pending en-passant target square, and one castling right per
/// color and side.
#[verifier::ext_equal]
pub ghost struct BoardView {
    pub width: int,
    pub height: int,
    pub grid: Seq<Seq<Option<ChessPiece>>>,
    pub turn: Color,
    pub en_passant: Option<(int, int)>,
    pub castle_wk: bool,
    pub castle_wq: bool,
    pub castle_bk: bool,
    pub castle_bq: bool,
}

/// Distance between two coordinates on one axis.
pub open spec fn abs_d(a: int, b: int) -> int {
    if a >= b {
        a - b
    } else {
        b - a
    }
}

/// One step from `a` toward `b` (or `a` itself when already there).
pub open spec fn step_toward(a: int, b: int) -> int {
    if a < b {
        a + 1
    } else if a > b {
        a - 1
    } else {
        a
    }
}

/// The two squares lie on a common (nondegenerate) diagonal.
pub open spec fn diag_line(r0: int, c0: int, er: int, ec: int) -> bool {
    r0 != er && c0 != ec && abs_d(r0, er) == abs_d(c0, ec)
}

/// The two squares lie on a common rank or file and are distinct.
pub open spec fn ortho_line(r0: int, c0: int, er: int, ec: int) -> bool {
    (r0 == er && c0 != ec) || (r0 != er && c0 == ec)
}

impl BoardView {
    pub open spec fn in_bounds(self, r: int, c: int) -> bool {
        0 <= r < self.height && 0 <= c < self.width
    }

    /// The occupant of a square.
    pub open spec fn sq(self, r: int, c: int) -> Option<ChessPiece> {
        self.grid[r][c]
    }

    pub open spec fn empty_at(self, r: int, c: int) -> bool {
        self.in_bounds(r, c) && self.sq(r, c) is None
    }

    /// The square holds a piece of the given color.
    pub open spec fn friend_at(self, col: Color, r: int, c: int) -> bool {
        self.in_bounds(r, c) && match self.sq(r, c) {
            Some(p) => p.color == col,
            None => false,
        }
    }

    /// The square holds a piece of the opposing color.
    pub open spec fn enemy_at(self, col: Color, r: int, c: int) -> bool {
        self.in_bounds(r, c) && match self.sq(r, c) {
            Some(p) => p.color != col,
            None => false,
        }
    }

    /// A piece of the given color may end its move on this square.
    pub open spec fn can_land(self, col: Color, r: int, c: int) -> bool {
        self.in_bounds(r, c) && !self.friend_at(col, r, c)
    }

    /// The kind a plain step or slide onto this square gets: a capture when
    /// an enemy stands there, an ordinary move otherwise.
    pub open spec fn land_kind(self, col: Color, r: int, c: int) -> MoveCommandType {
        if self.enemy_at(col, r, c) {
            MoveCommandType::Capture
        } else {
            MoveCommandType::Move
        }
    }

    /// Well-formedness: the grid has the stated dimensions, the area fits a
    /// `u32`, and a pending en-passant target lies on the board.
    pub open spec fn wf(self) -> bool {
        &&& 0 <= self.width <= u32::MAX
        &&& 0 <= self.height <= u32::MAX
        &&& self.width * self.height <= u32::MAX
        &&& self.grid.len() == self.height
        &&& (forall|r: int| 0 <= r < self.height ==> (#[trigger] self.grid[r]).len() == self.width)
        &&& match self.en_passant {
            Some(t) => self.in_bounds(t.0, t.1),
            None => true,
        }
    }
}

/// Every square strictly between `(r0, c0)` and `(er, ec)`, stepping one
/// square at a time toward the destination on each axis, is empty. On a
/// straight or diagonal line this is exactly "nothing stands in the way";
/// the destination square itself is not constrained.
pub open spec fn path_clear(v: BoardView, r0: int, c0: int, er: int, ec: int) -> bool
    decreases abs_d(r0, er) + abs_d(c0, ec),
{
    let r1 = step_toward(r0, er);
    let c1 = step_toward(c0, ec);
    if r1 == er && c1 == ec {
        true
    } else {
        v.empty_at(r1, c1) && path_clear(v, r1, c1, er, ec)
    }
}

/// The board itself: the single source of truth every piece's move
/// generation consults. It exclusively owns the pieces it contains; moving
/// a piece is a transfer between cells and capturing destroys the captured
/// piece.
pub struct ChessBoard {
    width: u32,
    height: u32,
    player_turn: Color,
    grid: Vec<Vec<Option<ChessPiece>>>,
    en_passant: Option<(u32, u32)>,
    castle_wk: bool,
    castle_wq: bool,
    castle_bk: bool,
    castle_bq: bool,
}

impl View for ChessBoard {
    type V = BoardView;

    closed spec fn view(&self) -> BoardView {
        BoardView {
            width: self.width as int,
            height: self.height as int,
            grid: Seq::new(self.grid@.len(), |r: int| self.grid@[r]@),
            turn: self.player_turn,
            en_passant: match self.en_passant {
                Some(t) => Some((t.0 as int, t.1 as int)),
                None => None,
            },
            castle_wk: self.castle_wk,
            castle_wq: self.castle_wq,
            castle_bk: self.castle_bk,
            castle_bq: self.castle_bq,
        }
    }
}

impl ChessBoard {
    pub open spec fn wf(self) -> bool {
        self@.wf()
    }

    /// An empty grid of the given dimensions: no pieces, White to move, no
    /// pending en-passant target, all castling rights set.
    pub fn new(width: u32, height: u32) -> (b: ChessBoard)
        requires
            width as int * height as int <= u32::MAX,
        ensures
            b.wf(),
            b@.width == width as int,
            b@.height == height as int,
            b@.turn == Color::White,
            b@.en_passant is None,
            b@.castle_wk && b@.castle_wq && b@.castle_bk && b@.castle_bq,
            forall|r: int, c: int|
                0 <= r < height as int && 0 <= c < width as int ==> (#[trigger] b@.sq(r, c)) is None,
    {
        let mut grid: Vec<Vec<Option<ChessPiece>>> = Vec::new();
        let mut r: u32 = 0;
        while r < height
            invariant
                r <= height,
                grid@.len() == r as int,
                forall|i: int| 0 <= i < r as int ==> (#[trigger] grid@[i])@.len() == width as int,
                forall|i: int, j: int|
                    0 <= i < r as int && 0 <= j < width as int ==> (#[trigger] grid@[i]@[j]) is None,
            decreases height - r,
        {
            let mut row: Vec<Option<ChessPiece>> = Vec::new();
            let mut c: u32 = 0;
            while c < width
                invariant
                    c <= width,
                    row@.len() == c as int,
                    forall|j: int| 0 <= j < c as int ==> (#[trigger] row@[j]) is None,
                decreases width - c,
            {
                row.push(None);
                c = c + 1;
            }
            grid.push(row);
            r = r + 1;
        }
        ChessBoard {
            width,
            height,
            player_turn: Color::White,
            grid,
            en_passant: None,
            castle_wk: true,
            castle_wq: true,
            castle_bk: true,
            castle_bq: true,
        }
    }

    /// The canonical starting position: all 32 pieces placed, White to
    /// move, both castling rights set for both colors.
    pub fn standard() -> (b: ChessBoard)
        ensures
            b.wf(),
            b@.width == 8,
            b@.height == 8,
            b@.turn == Color::White,
            b@.en_passant is None,
            b@.castle_wk && b@.castle_wq && b@.castle_bk && b@.castle_bq,
            forall|r: int, c: int|
                0 <= r < 8 && 0 <= c < 8 ==> #[trigger] b@.sq(r, c) == standard_cell(r, c),
    {
        let mut grid: Vec<Vec<Option<ChessPiece>>> = Vec::new();
        let mut r: u32 = 0;
        while r < 8
            invariant
                r <= 8,
                grid@.len() == r as int,
                forall|i: int| 0 <= i < r as int ==> (#[trigger] grid@[i])@.len() == 8,
                forall|i: int, j: int|
                    0 <= i < r as int && 0 <= j < 8 ==> (#[trigger] grid@[i]@[j]) == standard_cell(
                        i,
                        j,
                    ),
            decreases 8 - r,
        {
            let mut row: Vec<Option<ChessPiece>> = Vec::new();
            let mut c: u32 = 0;
            while c < 8
                invariant
                    r < 8,
                    c <= 8,
                    row@.len() == c as int,
                    forall|j: int|
                        0 <= j < c as int ==> (#[trigger] row@[j]) == standard_cell(r as int, j),
                decreases 8 - c,
            {
                row.push(standard_cell_ex(r, c));
                c = c + 1;
            }
            grid.push(row);
            r = r + 1;
        }
        ChessBoard {
            width: 8,
            height: 8,
            player_turn: Color::White,
            grid,
            en_passant: None,
            castle_wk: true,
            castle_wq: true,
            castle_bk: true,
            castle_bq: true,
        }
    }

    /// Width times height, the number of squares of the grid.
    pub fn area(&self) -> (a: u32)
        requires
            self.wf(),
        ensures
            a as int == self@.width * self@.height,
    {
        self.width * self.height
    }

    /// Read-only occupant lookup; out-of-grid coordinates are reported.
    pub fn piece_at(&self, row: u32, col: u32) -> (r: Result<Option<ChessPiece>, ChessError>)
        requires
            self.wf(),
        ensures
            self@.in_bounds(row as int, col as int) ==> r == Ok::<Option<ChessPiece>, ChessError>(
                self@.sq(row as int, col as int),
            ),
            !self@.in_bounds(row as int, col as int) ==> r == Err::<Option<ChessPiece>, ChessError>(
                ChessError::OutOfBounds,
            ),
    {
        if row < self.height && col < self.width {
            Ok(self.cell(row, col))
        } else {
            Err(ChessError::OutOfBounds)
        }
    }

    /// The side to move.
    pub fn player_turn(&self) -> (c: Color)
        ensures
            c == self@.turn,
    {
        self.player_turn
    }

    pub(crate) fn cell(&self, row: u32, col: u32) -> (r: Option<ChessPiece>)
        requires
            self.wf(),
            self@.in_bounds(row as int, col as int),
        ensures
            r == self@.sq(row as int, col as int),
    {
        self.grid[row as usize][col as usize]
    }

    /// Places (or clears) a single cell: the custom-layout constructor's
    /// companion for building test positions. All other state is untouched.
    pub fn set_piece(&mut self, row: u32, col: u32, cell: Option<ChessPiece>) -> (r: Result<
        (),
        ChessError,
    >)
        requires
            old(self).wf(),
        ensures
            final(self).wf(),
            r is Ok <==> old(self)@.in_bounds(row as int, col as int),
            r is Err ==> r == Err::<(), ChessError>(ChessError::OutOfBounds) && final(self)@
                == old(self)@,
            r is Ok ==> final(self)@ == (BoardView {
                grid: old(self)@.grid.update(
                    row as int,
                    old(self)@.grid[row as int].update(col as int, cell),
                ),
                ..old(self)@
            }),
    {
        if row < self.height && col < self.width {
            self.grid[row as usize][col as usize] = cell;
            proof {
                assert(self@.grid =~~= old(self)@.grid.update(
                    row as int,
                    old(self)@.grid[row as int].update(col as int, cell),
                ));
                assert(self@ =~~= (BoardView {
                    grid: old(self)@.grid.update(
                        row as int,
                        old(self)@.grid[row as int].update(col as int, cell),
                    ),
                    ..old(self)@
                }));
            }
            Ok(())
        } else {
            proof {
                assert(self@ =~~= old(self)@);
            }
            Err(ChessError::OutOfBounds)
        }
    }

    pub(crate) fn path_clear_ex(&self, r0: u32, c0: u32, er: u32, ec: u32) -> (res: bool)
        requires
            self.wf(),
            self@.in_bounds(r0 as int, c0 as int),
            self@.in_bounds(er as int, ec as int),
        ensures
            res == path_clear(self@, r0 as int, c0 as int, er as int, ec as int),
    {
        let mut rr = r0;
        let mut cc = c0;
        loop
            invariant
                self.wf(),
                self@.in_bounds(rr as int, cc as int),
                self@.in_bounds(er as int, ec as int),
                path_clear(self@, r0 as int, c0 as int, er as int, ec as int) == path_clear(
                    self@,
                    rr as int,
                    cc as int,
                    er as int,
                    ec as int,
                ),
            decreases abs_d(rr as int, er as int) + abs_d(cc as int, ec as int),
        {
            let r1 = if rr < er {
                rr + 1
            } else if rr > er {
                rr - 1
            } else {
                rr
            };
            let c1 = if cc < ec {
                cc + 1
            } else if cc > ec {
                cc - 1
            } else {
                cc
            };
            if r1 == er && c1 == ec {
                return true;
            }
            if self.cell(r1, c1).is_some() {
                return false;
            }
            rr = r1;
            cc = c1;
        }
    }
}

/// Which castling right of the view the pair (color, side) names;
/// `kingside` selects between the king-side and queen-side flag.
pub open spec fn spec_castle_right(v: BoardView, col: Color, kingside: bool) -> bool {
    if col == Color::White {
        if kingside {
            v.castle_wk
        } else {
            v.castle_wq
        }
    } else {
        if kingside {
            v.castle_bk
        } else {
            v.castle_bq
        }
    }
}

impl ChessBoard {
    pub fn width(&self) -> (w: u32)
        ensures
            w as int == self@.width,
    {
        self.width
    }

    pub fn height(&self) -> (h: u32)
        ensures
            h as int == self@.height,
    {
        self.height
    }

    /// The pending en-passant target square, if any.
    pub fn en_passant_target(&self) -> (r: Option<(u32, u32)>)
        ensures
            r is Some <==> self@.en_passant is Some,
            r matches Some(t) ==> self@.en_passant == Some((t.0 as int, t.1 as int)),
    {
        self.en_passant
    }

    /// Whether the given color still holds the given castling right.
    pub fn castle_right(&self, col: Color, kingside: bool) -> (r: bool)
        ensures
            r == spec_castle_right(self@, col, kingside),
    {
        if matches!(col, Color::White) {
            if kingside {
                self.castle_wk
            } else {
                self.castle_wq
            }
        } else {
            if kingside {
                self.castle_bk
            } else {
                self.castle_bq
            }
        }
    }

    pub(crate) fn can_land_ex(&self, col: Color, r: u32, c: u32) -> (res: bool)
        requires
            self.wf(),
        ensures
            res == self@.can_land(col, r as int, c as int),
    {
        if r < self.height && c < self.width {
            match self.cell(r, c) {
                Some(p) => p.color != col,
                None => true,
            }
        } else {
            false
        }
    }

    pub(crate) fn land_kind_ex(&self, col: Color, r: u32, c: u32) -> (res: MoveCommandType)
        requires
            self.wf(),
            self@.in_bounds(r as int, c as int),
        ensures
            res == self@.land_kind(col, r as int, c as int),
    {
        match self.cell(r, c) {
            Some(p) => if p.color != col {
                MoveCommandType::Capture
            } else {
                MoveCommandType::Move
            },
            None => MoveCommandType::Move,
        }
    }
}

/// The command is one that removes an opposing piece when applied: a plain
/// capture, an en-passant capture, or a promotion onto an occupied square.
pub open spec fn is_capture_command(v: BoardView, m: MoveCommand) -> bool {
    ||| m.move_type == MoveCommandType::Capture
    ||| m.move_type == MoveCommandType::Enpassant
    ||| (m.move_type == MoveCommandType::Promote && v.sq(m.end_row as int, m.end_col as int)
        is Some)
}

/// The square `t` is a destination where the piece on `(r0, c0)` could end
/// its turn by removing an opposing piece.
pub open spec fn capture_target_at(v: BoardView, r0: int, c0: int, t: (u32, u32)) -> bool {
    exists|m: MoveCommand|
        #[trigger] pseudo_legal(v, r0, c0, m) && is_capture_command(v, m) && m.end_row == t.0
            && m.end_col == t.1
}

/// One capture-filter step: the move is a capturing one and ends on `t`.
pub open spec fn cap_match(v: BoardView, m: MoveCommand, t: (u32, u32)) -> bool {
    is_capture_command(v, m) && m.end_row == t.0 && m.end_col == t.1
}

/// Pushing onto a sequence adds exactly the pushed element to its members.
proof fn lemma_push_contains<A>(s: Seq<A>, x: A)
    ensures
        forall|y: A| #[trigger] s.push(x).contains(y) <==> (s.contains(y) || y == x),
{
    assert forall|y: A| s.push(x).contains(y) implies (s.contains(y) || y == x) by {
        let j = choose|j: int| 0 <= j < s.push(x).len() && s.push(x)[j] == y;
        if j < s.len() {
            assert(s[j] == y);
        }
    };
    assert forall|y: A| s.contains(y) implies s.push(x).contains(y) by {
        let j = choose|j: int| 0 <= j < s.len() && s[j] == y;
        assert(s.push(x)[j] == y);
    };
    assert(s.push(x)[s.len() as int] == x);
}

impl ChessBoard {
    /// Every pseudo-legal command of the piece occupying `(row, col)`: one
    /// command for each destination its movement rule reaches on this
    /// board. An empty square yields no commands; an off-board coordinate
    /// is reported.
    pub fn possible_moves(&self, row: u32, col: u32) -> (r: Result<Vec<MoveCommand>, ChessError>)
        requires
            self.wf(),
        ensures
            r is Ok <==> self@.in_bounds(row as int, col as int),
            r is Err ==> r == Err::<Vec<MoveCommand>, ChessError>(ChessError::OutOfBounds),
            r matches Ok(ms) ==> forall|m: MoveCommand|
                #![trigger ms@.contains(m)]
                #![trigger pseudo_legal(self@, row as int, col as int, m)]
                ms@.contains(m) <==> pseudo_legal(self@, row as int, col as int, m),
    {
        if !(row < self.height && col < self.width) {
            return Err(ChessError::OutOfBounds);
        }
        let p = match self.cell(row, col) {
            Some(p) => p,
            None => {
                return Ok(Vec::new());
            },
        };
        let h = self.height;
        let w = self.width;
        let mut out: Vec<MoveCommand> = Vec::new();
        let mut er: u32 = 0;
        while er < h
            invariant
                self.wf(),
                h as int == self@.height,
                w as int == self@.width,
                self@.in_bounds(row as int, col as int),
                self@.sq(row as int, col as int) == Some(p),
                er <= h,
                forall|m: MoveCommand|
                    #![trigger out@.contains(m)]
                    #![trigger pseudo_legal(self@, row as int, col as int, m)]
                    out@.contains(m) <==> (pseudo_legal(self@, row as int, col as int, m)
                        && (m.end_row as int) < er as int),
            decreases h - er,
        {
            let mut ec: u32 = 0;
            while ec < w
                invariant
                    self.wf(),
                    h as int == self@.height,
                    w as int == self@.width,
                    self@.in_bounds(row as int, col as int),
                    self@.sq(row as int, col as int) == Some(p),
                    er < h,
                    ec <= w,
                    forall|m: MoveCommand|
                        #![trigger out@.contains(m)]
                        #![trigger pseudo_legal(self@, row as int, col as int, m)]
                        out@.contains(m) <==> (pseudo_legal(self@, row as int, col as int, m) && (
                        (m.end_row as int) < er as int || ((m.end_row as int) == er as int && (
                        m.end_col as int) < ec as int))),
                decreases w - ec,
            {
                let ghost old_out = out@;
                match piece_target_ex(self, p, row, col, er, ec) {
                    Some(mt) => {
                        let mv = MoveCommand {
                            start_row: row,
                            start_col: col,
                            end_row: er,
                            end_col: ec,
                            move_type: mt,
                            promotion: PieceKind::Queen,
                        };
                        out.push(mv);
                        proof {
                            lemma_push_contains(old_out, mv);
                            assert(pseudo_legal(self@, row as int, col as int, mv));
                            assert forall|m: MoveCommand|
                                pseudo_legal(self@, row as int, col as int, m) && (m.end_row as int)
                                    == er as int && (m.end_col as int) == ec as int implies m
                                == mv by {
                                assert(m.move_type == mt);
                            }
                            assert(out@ == old_out.push(mv));
                        }
                    },
                    None => {
                        proof {
                            assert forall|m: MoveCommand|
                                pseudo_legal(self@, row as int, col as int, m) implies !((
                            m.end_row as int) == er as int && (m.end_col as int)
                                == ec as int) by {}
                        }
                    },
                }
                ec = ec + 1;
            }
            proof {
                assert forall|m: MoveCommand|
                    pseudo_legal(self@, row as int, col as int, m) && (m.end_row as int)
                        == er as int implies (m.end_col as int) < w as int by {}
            }
            er = er + 1;
        }
        proof {
            assert forall|m: MoveCommand|
                pseudo_legal(self@, row as int, col as int, m) implies (m.end_row as int)
                    < h as int by {}
        }
        Ok(out)
    }

    /// The destinations where the piece occupying `(row, col)` could end a
    /// turn by removing an opposing piece: a pure filter of
    /// `possible_moves`, never an independent computation.
    pub fn capture_targets(&self, row: u32, col: u32) -> (r: Result<Vec<(u32, u32)>, ChessError>)
        requires
            self.wf(),
        ensures
            r is Ok <==> self@.in_bounds(row as int, col as int),
            r is Err ==> r == Err::<Vec<(u32, u32)>, ChessError>(ChessError::OutOfBounds),
            r matches Ok(ts) ==> forall|t: (u32, u32)|
                #![trigger ts@.contains(t)]
                #![trigger capture_target_at(self@, row as int, col as int, t)]
                ts@.contains(t) <==> capture_target_at(self@, row as int, col as int, t),
    {
        let ms = match self.possible_moves(row, col) {
            Ok(ms) => ms,
            Err(e) => {
                return Err(e);
            },
        };
        let mut out: Vec<(u32, u32)> = Vec::new();
        let mut i: usize = 0;
        while i < ms.len()
            invariant
                self.wf(),
                self@.in_bounds(row as int, col as int),
                i <= ms@.len(),
                forall|m: MoveCommand|
                    #![trigger ms@.contains(m)]
                    #![trigger pseudo_legal(self@, row as int, col as int, m)]
                    ms@.contains(m) <==> pseudo_legal(self@, row as int, col as int, m),
                forall|t: (u32, u32)|
                    #![trigger out@.contains(t)]
                    out@.contains(t) <==> exists|k: int|
                        0 <= k < i as int && #[trigger] cap_match(self@, ms@[k], t),
            decreases ms@.len() - i,
        {
            let m = ms[i];
            proof {
                assert(ms@[i as int] == m);
                assert(ms@.contains(m));
                assert(pseudo_legal(self@, row as int, col as int, m));
            }
            let ghost old_out = out@;
            let is_cap = match m.move_type {
                MoveCommandType::Capture => true,
                MoveCommandType::Enpassant => true,
                MoveCommandType::Promote => self.cell(m.end_row, m.end_col).is_some(),
                _ => false,
            };
            if is_cap {
                out.push((m.end_row, m.end_col));
                proof {
                    lemma_push_contains(old_out, (m.end_row, m.end_col));
                    assert(cap_match(self@, ms@[i as int], (m.end_row, m.end_col)));
                    assert forall|t: (u32, u32)|
                        (exists|k: int|
                            0 <= k < i as int + 1 && #[trigger] cap_match(
                                self@,
                                ms@[k],
                                t,
                            )) implies out@.contains(t) by {
                        let k = choose|k: int|
                            0 <= k < i as int + 1 && #[trigger] cap_match(self@, ms@[k], t);
                        if k < i as int {
                            assert(old_out.contains(t));
                        } else {
                            assert(t.0 == m.end_row && t.1 == m.end_col);
                            assert(t == (m.end_row, m.end_col));
                        }
                    }
                }
            } else {
                proof {
                    assert forall|t: (u32, u32)| !cap_match(self@, ms@[i as int], t) by {}
                }
            }
            i = i + 1;
        }
        proof {
            assert forall|t: (u32, u32)|
                out@.contains(t) <==> capture_target_at(self@, row as int, col as int, t) by {
                if out@.contains(t) {
                    let k = choose|k: int|
                        0 <= k < ms@.len() && #[trigger] cap_match(self@, ms@[k], t);
                    assert(ms@.contains(ms@[k]));
                    assert(pseudo_legal(self@, row as int, col as int, ms@[k]));
                }
                if capture_target_at(self@, row as int, col as int, t) {
                    let m = choose|m: MoveCommand|
                        #[trigger] pseudo_legal(self@, row as int, col as int, m)
                            && is_capture_command(self@, m) && m.end_row == t.0 && m.end_col == t.1;
                    assert(ms@.contains(m));
                    let k = choose|k: int| 0 <= k < ms@.len() && ms@[k] == m;
                    assert(cap_match(self@, ms@[k], t));
                }
            }
        }
        Ok(out)
    }
}

/// Stepping from `(r0, c0)` toward `(er, ec)`, the square `(r, c)` is
/// crossed strictly before the destination is reached.
pub open spec fn strictly_between(r0: int, c0: int, er: int, ec: int, r: int, c: int) -> bool
    decreases abs_d(r0, er) + abs_d(c0, ec),
{
    let r1 = step_toward(r0, er);
    let c1 = step_toward(c0, ec);
    if r1 == er && c1 == ec {
        false
    } else {
        (r == r1 && c == c1) || strictly_between(r1, c1, er, ec, r, c)
    }
}

/// A clear path leaves every strictly crossed square empty.
proof fn lemma_path_clear_between(v: BoardView, r0: int, c0: int, er: int, ec: int, r: int, c: int)
    requires
        path_clear(v, r0, c0, er, ec),
        strictly_between(r0, c0, er, ec, r, c),
    ensures
        v.empty_at(r, c),
    decreases abs_d(r0, er) + abs_d(c0, ec),
{
    let r1 = step_toward(r0, er);
    let c1 = step_toward(c0, ec);
    if r1 == er && c1 == ec {
    } else if r == r1 && c == c1 {
    } else {
        lemma_path_clear_between(v, r1, c1, er, ec, r, c);
    }
}

/// Law: a sliding piece (bishop, rook or queen) never generates a
/// destination beyond the first occupied square of its line — every square
/// one of its commands crosses strictly before the destination is empty.
pub proof fn lemma_slider_stops_at_first_occupied(
    v: BoardView,
    p: ChessPiece,
    r0: int,
    c0: int,
    m: MoveCommand,
    r: int,
    c: int,
)
    requires
        pseudo_legal(v, r0, c0, m),
        v.sq(r0, c0) == Some(p),
        p.kind == PieceKind::Bishop || p.kind == PieceKind::Rook || p.kind == PieceKind::Queen,
        strictly_between(r0, c0, m.end_row as int, m.end_col as int, r, c),
    ensures
        v.empty_at(r, c),
{
    assert(path_clear(v, r0, c0, m.end_row as int, m.end_col as int));
    lemma_path_clear_between(v, r0, c0, m.end_row as int, m.end_col as int, r, c);
}

/// Law: every capture target of the piece on `(r0, c0)` is among the
/// destinations of its pseudo-legal commands.
pub proof fn lemma_capture_targets_subset_of_moves(v: BoardView, r0: int, c0: int, t: (u32, u32))
    requires
        capture_target_at(v, r0, c0, t),
    ensures
        exists|m: MoveCommand|
            #[trigger] pseudo_legal(v, r0, c0, m) && m.end_row == t.0 && m.end_col == t.1,
{
    let m = choose|m: MoveCommand|
        #[trigger] pseudo_legal(v, r0, c0, m) && is_capture_command(v, m) && m.end_row == t.0
            && m.end_col == t.1;
    assert(pseudo_legal(v, r0, c0, m) && m.end_row == t.0 && m.end_col == t.1);
}

/// A move counter incremented by one step, saturating at the type's
/// maximum (which no finite game reaches).
pub open spec fn inc_moves(x: u32) -> u32 {
    if x < u32::MAX {
        (x + 1) as u32
    } else {
        u32::MAX
    }
}

/// The piece of a cell with its move counter stepped: what a relocated rook
/// becomes on the castling rook's destination square.
pub open spec fn rook_moved(v: BoardView, r: int, c: int) -> Option<ChessPiece> {
    match v.sq(r, c) {
        Some(q) => Some(ChessPiece { kind: q.kind, color: q.color, moves: inc_moves(q.moves) }),
        None => None,
    }
}

/// The occupant of `(r, c)` after the command `m` executes: the start
/// square empties, the destination receives the moved piece (promoted when
/// the command promotes, its counter stepped), an en-passant capture also
/// empties the bypassed pawn's square, and a castle also relocates the
/// rook; every other square keeps its occupant.
pub open spec fn cell_after(v: BoardView, m: MoveCommand, r: int, c: int) -> Option<ChessPiece> {
    let sr = m.start_row as int;
    let sc = m.start_col as int;
    let er = m.end_row as int;
    let ec = m.end_col as int;
    match v.sq(sr, sc) {
        None => v.sq(r, c),
        Some(p) => {
            let moved = ChessPiece {
                kind: if m.move_type == MoveCommandType::Promote {
                    m.promotion
                } else {
                    p.kind
                },
                color: p.color,
                moves: inc_moves(p.moves),
            };
            let hr = home_row(v, p.color);
            if r == sr && c == sc {
                None
            } else if r == er && c == ec {
                Some(moved)
            } else if m.move_type == MoveCommandType::Enpassant && r == sr && c == ec {
                None
            } else if m.move_type == MoveCommandType::KingSideCastle && r == hr && c == v.width
                - 1 {
                None
            } else if m.move_type == MoveCommandType::KingSideCastle && r == hr && c == 5 {
                rook_moved(v, hr, v.width - 1)
            } else if m.move_type == MoveCommandType::QueenSideCastle && r == hr && c == 0 {
                None
            } else if m.move_type == MoveCommandType::QueenSideCastle && r == hr && c == 3 {
                rook_moved(v, hr, 0)
            } else {
                v.sq(r, c)
            }
        },
    }
}

/// Whether the (color, side) castling right survives the command: rights
/// are monotone, revoked forever once the color's king moves or the
/// relevant rook's corner square is either vacated or captured onto.
pub open spec fn right_after(v: BoardView, m: MoveCommand, col: Color, kingside: bool) -> bool {
    let sr = m.start_row as int;
    let sc = m.start_col as int;
    let er = m.end_row as int;
    let ec = m.end_col as int;
    let corner_r = if col == Color::White {
        0int
    } else {
        v.height - 1
    };
    let corner_c: int = if kingside {
        v.width - 1
    } else {
        0
    };
    let king_moved = match v.sq(sr, sc) {
        Some(p) => p.kind == PieceKind::King && p.color == col,
        None => false,
    };
    &&& spec_castle_right(v, col, kingside)
    &&& !king_moved
    &&& !(sr == corner_r && sc == corner_c)
    &&& !(er == corner_r && ec == corner_c)
}

/// The board state after the command `m` executes on `v`: the grid is
/// rewritten cell by cell, the turn flips, a pawn double step leaves the
/// bypassed square as the en-passant target for exactly the next move (any
/// other command clears it), and castling rights are revoked as
/// `right_after` says.
pub open spec fn apply_view(v: BoardView, m: MoveCommand) -> BoardView {
    BoardView {
        width: v.width,
        height: v.height,
        grid: Seq::new(
            v.height as nat,
            |r: int| Seq::new(v.width as nat, |c: int| cell_after(v, m, r, c)),
        ),
        turn: v.turn.spec_opposite(),
        en_passant: if m.move_type == MoveCommandType::PawnOpenMove {
            match v.sq(m.start_row as int, m.start_col as int) {
                Some(p) => Some((m.start_row as int + pawn_dir(p.color), m.start_col as int)),
                None => None,
            }
        } else {
            None
        },
        castle_wk: right_after(v, m, Color::White, true),
        castle_wq: right_after(v, m, Color::White, false),
        castle_bk: right_after(v, m, Color::Black, true),
        castle_bq: right_after(v, m, Color::Black, false),
    }
}

/// The command names a square of the active color and matches that piece's
/// movement rule (with the promotion choice normalized away).
pub open spec fn move_accepted(v: BoardView, m: MoveCommand) -> bool {
    &&& v.in_bounds(m.start_row as int, m.start_col as int)
    &&& match v.sq(m.start_row as int, m.start_col as int) {
        Some(p) => p.color == v.turn,
        None => false,
    }
    &&& pseudo_legal(v, m.start_row as int, m.start_col as int, m.spec_normalized())
}

/// A promotion command must name one of the four promotion piece kinds.
pub open spec fn promotion_ok(m: MoveCommand) -> bool {
    m.move_type == MoveCommandType::Promote ==> (m.promotion == PieceKind::Knight || m.promotion
        == PieceKind::Bishop || m.promotion == PieceKind::Rook || m.promotion == PieceKind::Queen)
}

/// The command is accepted by `apply`: generated by legal generation for
/// the active color, a valid promotion choice, and it does not leave the
/// mover's own king in check.
pub open spec fn apply_ok(v: BoardView, m: MoveCommand) -> bool {
    &&& move_accepted(v, m)
    &&& promotion_ok(m)
    &&& !in_check(apply_view(v, m), v.turn)
}

/// Which failure a rejected command reports.
pub open spec fn apply_err(v: BoardView, m: MoveCommand) -> ChessError {
    if !move_accepted(v, m) {
        ChessError::IllegalMove
    } else if !promotion_ok(m) {
        ChessError::InvalidPromotionChoice
    } else {
        ChessError::IllegalMove
    }
}

/// Law: a command accepted by `apply` never leaves the mover's own king in
/// check — the legality filter is part of acceptance itself.
pub proof fn lemma_apply_keeps_king_safe(v: BoardView, m: MoveCommand)
    requires
        apply_ok(v, m),
    ensures
        !in_check(apply_view(v, m), v.turn),
{
}

/// Law: a pawn double step leaves the bypassed square as the pending
/// en-passant target of the resulting board.
pub proof fn lemma_open_move_sets_en_passant(v: BoardView, p: ChessPiece, m: MoveCommand)
    requires
        v.sq(m.start_row as int, m.start_col as int) == Some(p),
        m.move_type == MoveCommandType::PawnOpenMove,
    ensures
        apply_view(v, m).en_passant == Some(
            (m.start_row as int + pawn_dir(p.color), m.start_col as int),
        ),
{
}

/// Law: the en-passant target survives for exactly one move. Whatever
/// command is applied to a board, only a further pawn double step leaves a
/// target behind; every other command clears it unconditionally.
pub proof fn lemma_en_passant_cleared(v: BoardView, m: MoveCommand)
    requires
        m.move_type != MoveCommandType::PawnOpenMove,
    ensures
        apply_view(v, m).en_passant is None,
{
}

/// Law: castling rights are monotone — applying a command can revoke a
/// right but never restore one.
pub proof fn lemma_castle_rights_monotone(v: BoardView, m: MoveCommand, col: Color, kingside: bool)
    ensures
        spec_castle_right(apply_view(v, m), col, kingside) ==> spec_castle_right(v, col, kingside),
{
}

/// Law: the side to move alternates strictly with every applied command.
pub proof fn lemma_turn_alternates(v: BoardView, m: MoveCommand)
    ensures
        apply_view(v, m).turn == v.turn.spec_opposite(),
{
}

impl ChessBoard {
    fn cell_after_ex(&self, m: MoveCommand, p: ChessPiece, r: u32, c: u32) -> (res: Option<
        ChessPiece,
    >)
        requires
            self.wf(),
            self@.in_bounds(m.start_row as int, m.start_col as int),
            self@.sq(m.start_row as int, m.start_col as int) == Some(p),
            self@.in_bounds(r as int, c as int),
        ensures
            res == cell_after(self@, m, r as int, c as int),
    {
        let w = self.width;
        let moved = ChessPiece {
            kind: if matches!(m.move_type, MoveCommandType::Promote) {
                m.promotion
            } else {
                p.kind
            },
            color: p.color,
            moves: if p.moves < u32::MAX {
                p.moves + 1
            } else {
                u32::MAX
            },
        };
        let hr: u32 = if p.color == Color::White {
            0
        } else {
            self.height - 1
        };
        if r == m.start_row && c == m.start_col {
            None
        } else if r == m.end_row && c == m.end_col {
            Some(moved)
        } else if matches!(m.move_type, MoveCommandType::Enpassant) && r == m.start_row && c
            == m.end_col {
            None
        } else if matches!(m.move_type, MoveCommandType::KingSideCastle) && r == hr && c == w - 1 {
            None
        } else if matches!(m.move_type, MoveCommandType::KingSideCastle) && r == hr && c == 5 {
            match self.cell(hr, w - 1) {
                Some(q) => Some(
                    ChessPiece {
                        kind: q.kind,
                        color: q.color,
                        moves: if q.moves < u32::MAX {
                            q.moves + 1
                        } else {
                            u32::MAX
                        },
                    },
                ),
                None => None,
            }
        } else if matches!(m.move_type, MoveCommandType::QueenSideCastle) && r == hr && c == 0 {
            None
        } else if matches!(m.move_type, MoveCommandType::QueenSideCastle) && r == hr && c == 3 {
            match self.cell(hr, 0) {
                Some(q) => Some(
                    ChessPiece {
                        kind: q.kind,
                        color: q.color,
                        moves: if q.moves < u32::MAX {
                            q.moves + 1
                        } else {
                            u32::MAX
                        },
                    },
                ),
                None => None,
            }
        } else {
            self.cell(r, c)
        }
    }

    fn build_applied(&self, m: MoveCommand, p: ChessPiece) -> (nb: ChessBoard)
        requires
            self.wf(),
            self@.in_bounds(m.start_row as int, m.start_col as int),
            self@.sq(m.start_row as int, m.start_col as int) == Some(p),
            self@.in_bounds(m.end_row as int, m.end_col as int),
            pseudo_legal(self@, m.start_row as int, m.start_col as int, m.spec_normalized()),
        ensures
            nb.wf(),
            nb@ == apply_view(self@, m),
    {
        let h = self.height;
        let w = self.width;
        let mut grid: Vec<Vec<Option<ChessPiece>>> = Vec::new();
        let mut r: u32 = 0;
        while r < h
            invariant
                self.wf(),
                h as int == self@.height,
                w as int == self@.width,
                self@.in_bounds(m.start_row as int, m.start_col as int),
                self@.sq(m.start_row as int, m.start_col as int) == Some(p),
                r <= h,
                grid@.len() == r as int,
                forall|i: int|
                    0 <= i < r as int ==> (#[trigger] grid@[i])@ == Seq::new(
                        w as nat,
                        |c: int| cell_after(self@, m, i, c),
                    ),
            decreases h - r,
        {
            let mut rowv: Vec<Option<ChessPiece>> = Vec::new();
            let mut c: u32 = 0;
            while c < w
                invariant
                    self.wf(),
                    h as int == self@.height,
                    w as int == self@.width,
                    self@.in_bounds(m.start_row as int, m.start_col as int),
                    self@.sq(m.start_row as int, m.start_col as int) == Some(p),
                    r < h,
                    c <= w,
                    rowv@.len() == c as int,
                    forall|j: int|
                        0 <= j < c as int ==> rowv@[j] == cell_after(self@, m, r as int, j),
                decreases w - c,
            {
                let cellv = self.cell_after_ex(m, p, r, c);
                rowv.push(cellv);
                c = c + 1;
            }
            proof {
                assert(rowv@ =~= Seq::new(w as nat, |c: int| cell_after(self@, m, r as int, c)));
            }
            grid.push(rowv);
            r = r + 1;
        }
        let ep: Option<(u32, u32)> = if matches!(m.move_type, MoveCommandType::PawnOpenMove) {
            proof {
                assert(p.kind == PieceKind::Pawn);
            }
            let mid: u32 = if p.color == Color::White {
                m.start_row + 1
            } else {
                m.start_row - 1
            };
            Some((mid, m.start_col))
        } else {
            None
        };
        let white_king_moved = p.kind == PieceKind::King && p.color == Color::White;
        let black_king_moved = p.kind == PieceKind::King && p.color == Color::Black;
        let sr = m.start_row;
        let sc = m.start_col;
        let er = m.end_row;
        let ec = m.end_col;
        let nb = ChessBoard {
            width: w,
            height: h,
            player_turn: self.player_turn.opposite(),
            grid,
            en_passant: ep,
            castle_wk: self.castle_wk && !white_king_moved && !(sr == 0 && sc == w - 1) && !(er == 0
                && ec == w - 1),
            castle_wq: self.castle_wq && !white_king_moved && !(sr == 0 && sc == 0) && !(er == 0
                && ec == 0),
            castle_bk: self.castle_bk && !black_king_moved && !(sr == h - 1 && sc == w - 1) && !(er
                == h - 1 && ec == w - 1),
            castle_bq: self.castle_bq && !black_king_moved && !(sr == h - 1 && sc == 0) && !(er == h
                - 1 && ec == 0),
        };
        proof {
            assert(nb@.grid =~= apply_view(self@, m).grid);
            assert(nb@ =~~= apply_view(self@, m));
        }
        nb
    }

    /// Validates that the command was produced by legal generation for the
    /// piece on its start square and that the active color owns it, then
    /// relocates the piece (removing a captured piece, relocating the
    /// castling rook, promoting), updates castling rights and the
    /// en-passant target, increments the mover's counter and flips the
    /// turn — producing a new board. Rejected with `IllegalMove` when the
    /// start square is empty or foreign, the movement rule does not yield
    /// the command, or the mover's own king would be left in check; with
    /// `InvalidPromotionChoice` when a promotion names an invalid kind.
    pub fn apply(&self, m: MoveCommand) -> (r: Result<ChessBoard, ChessError>)
        requires
            self.wf(),
        ensures
            r is Ok <==> apply_ok(self@, m),
            r matches Ok(b2) ==> b2.wf() && b2@ == apply_view(self@, m),
            r is Err ==> r == Err::<ChessBoard, ChessError>(apply_err(self@, m)),
    {
        if !(m.start_row < self.height && m.start_col < self.width) {
            return Err(ChessError::IllegalMove);
        }
        let p = match self.cell(m.start_row, m.start_col) {
            Some(p) => p,
            None => {
                return Err(ChessError::IllegalMove);
            },
        };
        if p.color != self.player_turn {
            return Err(ChessError::IllegalMove);
        }
        if !(m.end_row < self.height && m.end_col < self.width) {
            return Err(ChessError::IllegalMove);
        }
        let mt_ok = match piece_target_ex(self, p, m.start_row, m.start_col, m.end_row, m.end_col) {
            Some(t) => t == m.move_type,
            None => false,
        };
        if !mt_ok {
            return Err(ChessError::IllegalMove);
        }
        proof {
            assert(pseudo_legal(
                self@,
                m.start_row as int,
                m.start_col as int,
                m.spec_normalized(),
            ));
            assert(move_accepted(self@, m));
        }
        if matches!(m.move_type, MoveCommandType::Promote) {
            let choice_ok = matches!(
                m.promotion,
                PieceKind::Knight | PieceKind::Bishop | PieceKind::Rook | PieceKind::Queen
            );
            if !choice_ok {
                return Err(ChessError::InvalidPromotionChoice);
            }
        }
        let nb = self.build_applied(m, p);
        if in_check_ex(&nb, p.color) {
            return Err(ChessError::IllegalMove);
        }
        Ok(nb)
    }
}

/// The distance between two coordinates on one axis, as a machine integer.
pub(crate) fn abs_diff(a: u32, b: u32) -> (r: u32)
    ensures
        r as int == abs_d(a as int, b as int),
{
    if a >= b {
        a - b
    } else {
        b - a
    }
}

/// The back-rank piece order of the starting position, by file.
pub open spec fn back_rank_kind(c: int) -> PieceKind {
    if c == 0 || c == 7 {
        PieceKind::Rook
    } else if c == 1 || c == 6 {
        PieceKind::Knight
    } else if c == 2 || c == 5 {
        PieceKind::Bishop
    } else if c == 3 {
        PieceKind::Queen
    } else {
        PieceKind::King
    }
}

/// The occupant of each square in the canonical starting position: White's
/// back rank on row 0 and pawns on row 1, Black mirrored on rows 7 and 6.
pub open spec fn standard_cell(r: int, c: int) -> Option<ChessPiece> {
    if r == 0 {
        Some(ChessPiece { kind: back_rank_kind(c), color: Color::White, moves: 0 })
    } else if r == 1 {
        Some(ChessPiece { kind: PieceKind::Pawn, color: Color::White, moves: 0 })
    } else if r == 6 {
        Some(ChessPiece { kind: PieceKind::Pawn, color: Color::Black, moves: 0 })
    } else if r == 7 {
        Some(ChessPiece { kind: back_rank_kind(c), color: Color::Black, moves: 0 })
    } else {
        None
    }
}

fn standard_cell_ex(r: u32, c: u32) -> (res: Option<ChessPiece>)
    requires
        r < 8,
        c < 8,
    ensures
        res == standard_cell(r as int, c as int),
{
    let kind = if c == 0 || c == 7 {
        PieceKind::Rook
    } else if c == 1 || c == 6 {
        PieceKind::Knight
    } else if c == 2 || c == 5 {
        PieceKind::Bishop
    } else if c == 3 {
        PieceKind::Queen
    } else {
        PieceKind::King
    };
    if r == 0 {
        Some(ChessPiece { kind, color: Color::White, moves: 0 })
    } else if r == 1 {
        Some(ChessPiece { kind: PieceKind::Pawn, color: Color::White, moves: 0 })
    } else if r == 6 {
        Some(ChessPiece { kind: PieceKind::Pawn, color: Color::Black, moves: 0 })
    } else if r == 7 {
        Some(ChessPiece { kind, color: Color::Black, moves: 0 })
    } else {
        None
    }
}

/// Builds a board of the given dimensions and reports whether it counts as a
/// large board: strictly more than 100 squares.
pub fn new_chess_board(width: u32, height: u32) -> (r: bool)
    requires
        width as int * height as int <= u32::MAX,
    ensures
        r == (width as int * height as int > 100),
{
    let chess_board = ChessBoard::new(width, height);
    let chess_board_area = chess_board.area();
    if chess_board_area > 100 {
        true
    } else {
        false
    }
}

} // verus!
