use rust_compute::chess_board::{new_chess_board, ChessBoard, ChessError};
use rust_compute::chess_piece::{ChessPiece, Color, PieceKind};
use rust_compute::move_command::{MoveCommand, MoveCommandType};

fn mv(sr: u32, sc: u32, er: u32, ec: u32, t: MoveCommandType) -> MoveCommand {
    MoveCommand {
        start_row: sr,
        start_col: sc,
        end_row: er,
        end_col: ec,
        move_type: t,
        promotion: PieceKind::Queen,
    }
}

fn piece(kind: PieceKind, color: Color) -> ChessPiece {
    ChessPiece { kind, color, moves: 0 }
}

#[test]
fn area_of_nine_by_nine_is_81_and_not_large() {
    let b = ChessBoard::new(9, 9);
    assert_eq!(b.area(), 81);
    assert!(!new_chess_board(9, 9));
}

#[test]
fn eleven_by_eleven_is_large() {
    let b = ChessBoard::new(11, 11);
    assert_eq!(b.area(), 121);
    assert!(new_chess_board(11, 11));
}

#[test]
fn piece_at_reports_out_of_bounds() {
    let b = ChessBoard::standard();
    assert_eq!(b.piece_at(8, 0), Err(ChessError::OutOfBounds));
    assert_eq!(b.piece_at(0, 8), Err(ChessError::OutOfBounds));
    let rook = b.piece_at(0, 0).unwrap().unwrap();
    assert_eq!(rook.kind, PieceKind::Rook);
    assert_eq!(rook.color, Color::White);
}

#[test]
fn possible_moves_reports_out_of_bounds() {
    let b = ChessBoard::standard();
    assert!(matches!(b.possible_moves(9, 9), Err(ChessError::OutOfBounds)));
    assert!(matches!(b.capture_targets(0, 9), Err(ChessError::OutOfBounds)));
}

#[test]
fn empty_square_has_no_moves() {
    let b = ChessBoard::standard();
    assert!(b.possible_moves(3, 3).unwrap().is_empty());
}

#[test]
fn apply_rejects_empty_start_square() {
    let b = ChessBoard::standard();
    let r = b.apply(mv(3, 3, 4, 3, MoveCommandType::Move));
    assert_eq!(r.err(), Some(ChessError::IllegalMove));
}

#[test]
fn apply_rejects_wrong_color() {
    let b = ChessBoard::standard();
    // Black pawn may not move while it is White's turn.
    let r = b.apply(mv(6, 0, 5, 0, MoveCommandType::Move));
    assert_eq!(r.err(), Some(ChessError::IllegalMove));
}

#[test]
fn apply_rejects_rule_violation() {
    let b = ChessBoard::standard();
    // A pawn cannot advance three squares.
    let r = b.apply(mv(1, 0, 4, 0, MoveCommandType::Move));
    assert_eq!(r.err(), Some(ChessError::IllegalMove));
}

#[test]
fn apply_advances_pawn_and_flips_turn() {
    let b = ChessBoard::standard();
    let b2 = b.apply(mv(1, 4, 2, 4, MoveCommandType::Move)).unwrap();
    assert_eq!(b2.player_turn(), Color::Black);
    assert!(b2.piece_at(1, 4).unwrap().is_none());
    let p = b2.piece_at(2, 4).unwrap().unwrap();
    assert_eq!(p.kind, PieceKind::Pawn);
    assert_eq!(p.color, Color::White);
    assert_eq!(p.moves, 1);
}

#[test]
fn apply_rejects_move_leaving_king_in_check() {
    let mut b = ChessBoard::new(8, 8);
    b.set_piece(0, 0, Some(piece(PieceKind::King, Color::White))).unwrap();
    b.set_piece(7, 1, Some(piece(PieceKind::Rook, Color::Black))).unwrap();
    // Stepping onto the rook's file leaves the king in check.
    let r = b.apply(mv(0, 0, 0, 1, MoveCommandType::Move));
    assert_eq!(r.err(), Some(ChessError::IllegalMove));
    // Stepping down the edge file is safe.
    let b2 = b.apply(mv(0, 0, 1, 0, MoveCommandType::Move)).unwrap();
    assert_eq!(b2.piece_at(1, 0).unwrap().unwrap().kind, PieceKind::King);
}

#[test]
fn pawn_double_step_sets_en_passant_then_cleared() {
    let b = ChessBoard::standard();
    let b2 = b.apply(mv(1, 4, 3, 4, MoveCommandType::PawnOpenMove)).unwrap();
    assert_eq!(b2.en_passant_target(), Some((2, 4)));
    // Any following command that is not a double step clears the target.
    let b3 = b2.apply(mv(6, 0, 5, 0, MoveCommandType::Move)).unwrap();
    assert_eq!(b3.en_passant_target(), None);
}

#[test]
fn en_passant_capture_removes_bypassing_pawn() {
    let b = ChessBoard::standard();
    let b = b.apply(mv(1, 4, 3, 4, MoveCommandType::PawnOpenMove)).unwrap();
    let b = b.apply(mv(6, 0, 4, 0, MoveCommandType::PawnOpenMove)).unwrap();
    let b = b.apply(mv(3, 4, 4, 4, MoveCommandType::Move)).unwrap();
    let b = b.apply(mv(6, 3, 4, 3, MoveCommandType::PawnOpenMove)).unwrap();
    assert_eq!(b.en_passant_target(), Some((5, 3)));
    // The white pawn on (4,4) may capture en passant onto (5,3).
    let moves = b.possible_moves(4, 4).unwrap();
    let ep: Vec<&MoveCommand> =
        moves.iter().filter(|m| m.move_type == MoveCommandType::Enpassant).collect();
    assert_eq!(ep.len(), 1);
    assert_eq!((ep[0].end_row, ep[0].end_col), (5, 3));
    // The en-passant destination is among the capture targets.
    let targets = b.capture_targets(4, 4).unwrap();
    assert!(targets.contains(&(5, 3)));
    let b2 = b.apply(mv(4, 4, 5, 3, MoveCommandType::Enpassant)).unwrap();
    assert!(b2.piece_at(4, 3).unwrap().is_none(), "captured pawn is removed");
    assert_eq!(b2.piece_at(5, 3).unwrap().unwrap().color, Color::White);
    assert_eq!(b2.en_passant_target(), None);
}

#[test]
fn pawn_on_last_rank_promotes() {
    let mut b = ChessBoard::new(8, 8);
    b.set_piece(6, 0, Some(piece(PieceKind::Pawn, Color::White))).unwrap();
    let moves = b.possible_moves(6, 0).unwrap();
    assert_eq!(moves.len(), 1);
    assert_eq!(moves[0].move_type, MoveCommandType::Promote);
    assert_eq!(moves[0].promotion, PieceKind::Queen);
    let b2 = b.apply(moves[0]).unwrap();
    assert_eq!(b2.piece_at(7, 0).unwrap().unwrap().kind, PieceKind::Queen);
}

#[test]
fn promotion_choice_is_honored() {
    let mut b = ChessBoard::new(8, 8);
    b.set_piece(6, 0, Some(piece(PieceKind::Pawn, Color::White))).unwrap();
    let mut m = mv(6, 0, 7, 0, MoveCommandType::Promote);
    m.promotion = PieceKind::Knight;
    let b2 = b.apply(m).unwrap();
    assert_eq!(b2.piece_at(7, 0).unwrap().unwrap().kind, PieceKind::Knight);
}

#[test]
fn invalid_promotion_choice_is_rejected() {
    let mut b = ChessBoard::new(8, 8);
    b.set_piece(6, 0, Some(piece(PieceKind::Pawn, Color::White))).unwrap();
    let mut m = mv(6, 0, 7, 0, MoveCommandType::Promote);
    m.promotion = PieceKind::King;
    assert_eq!(b.apply(m).err(), Some(ChessError::InvalidPromotionChoice));
    m.promotion = PieceKind::Pawn;
    assert_eq!(b.apply(m).err(), Some(ChessError::InvalidPromotionChoice));
}

#[test]
fn king_side_castle_relocates_king_and_rook() {
    let mut b = ChessBoard::standard();
    b.set_piece(0, 5, None).unwrap();
    b.set_piece(0, 6, None).unwrap();
    let moves = b.possible_moves(0, 4).unwrap();
    let castle: Vec<&MoveCommand> =
        moves.iter().filter(|m| m.move_type == MoveCommandType::KingSideCastle).collect();
    assert_eq!(castle.len(), 1);
    assert_eq!((castle[0].end_row, castle[0].end_col), (0, 6));
    let b2 = b.apply(*castle[0]).unwrap();
    assert_eq!(b2.piece_at(0, 6).unwrap().unwrap().kind, PieceKind::King);
    assert_eq!(b2.piece_at(0, 5).unwrap().unwrap().kind, PieceKind::Rook);
    assert!(b2.piece_at(0, 4).unwrap().is_none());
    assert!(b2.piece_at(0, 7).unwrap().is_none());
    // Castling rights of the mover are permanently revoked.
    assert!(!b2.castle_right(Color::White, true));
    assert!(!b2.castle_right(Color::White, false));
    assert!(b2.castle_right(Color::Black, true));
}

#[test]
fn rook_move_revokes_one_castling_right() {
    let mut b = ChessBoard::standard();
    b.set_piece(0, 6, None).unwrap();
    // Rook h1 steps to g1 and back rights never return.
    let b2 = b.apply(mv(0, 7, 0, 6, MoveCommandType::Move)).unwrap();
    assert!(!b2.castle_right(Color::White, true));
    assert!(b2.castle_right(Color::White, false));
}
