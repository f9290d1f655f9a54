//! Move commands: immutable records describing a single board transition.

use vstd::prelude::*;
use crate::chess_piece::PieceKind;

verus! {

/// The kind of a generated move.
#[derive(Clone, Copy, Debug, PartialEq, Eq, Structural)]
pub enum MoveCommandType {
    Move,
    QueenSideCastle,
    KingSideCastle,
    Capture,
    Enpassant,
    PawnOpenMove,
    Promote,
}

/// An immutable description of one state transition: source square,
/// destination square, move kind, and — for `Promote` commands — the piece
/// kind the pawn turns into. Move generation always fills `promotion` with
/// `Queen` (the default choice); a caller may replace it before applying a
/// `Promote` command.
#[derive(Clone, Copy, Debug, PartialEq, Eq, Structural)]
pub struct MoveCommand {
    pub start_row: u32,
    pub start_col: u32,
    pub end_row: u32,
    pub end_col: u32,
    pub move_type: MoveCommandType,
    pub promotion: PieceKind,
}

impl MoveCommand {
    /// The same command with the promotion choice reset to the generation
    /// default. Legality of a command never depends on the choice itself.
    pub open spec fn spec_normalized(self) -> MoveCommand {
        MoveCommand { promotion: PieceKind::Queen, ..self }
    }

    pub fn normalized(self) -> (r: MoveCommand)
        ensures
            r == self.spec_normalized(),
    {
        MoveCommand { promotion: PieceKind::Queen, ..self }
    }
}

} // verus!
