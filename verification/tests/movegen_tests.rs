use rust_compute::chess_board::ChessBoard;
use rust_compute::chess_piece::{ChessPiece, Color, PieceKind};
use rust_compute::move_command::{MoveCommand, MoveCommandType};

fn put(b: &mut ChessBoard, r: u32, c: u32, kind: PieceKind, color: Color) {
    b.set_piece(r, c, Some(ChessPiece { kind, color, moves: 0 })).unwrap();
}

fn dests(moves: &[MoveCommand]) -> Vec<(u32, u32)> {
    moves.iter().map(|m| (m.end_row, m.end_col)).collect()
}

#[test]
fn lone_king_in_corner_has_three_moves() {
    let mut b = ChessBoard::new(8, 8);
    put(&mut b, 0, 0, PieceKind::King, Color::White);
    let moves = b.possible_moves(0, 0).unwrap();
    assert_eq!(moves.len(), 3);
    let d = dests(&moves);
    assert!(d.contains(&(0, 1)));
    assert!(d.contains(&(1, 0)));
    assert!(d.contains(&(1, 1)));
    assert!(moves.iter().all(|m| m.move_type == MoveCommandType::Move));
}

#[test]
fn knight_on_b1_of_starting_board_has_two_moves() {
    let b = ChessBoard::standard();
    let moves = b.possible_moves(0, 1).unwrap();
    assert_eq!(moves.len(), 2);
    let d = dests(&moves);
    assert!(d.contains(&(2, 0)));
    assert!(d.contains(&(2, 2)));
    assert!(moves.iter().all(|m| m.move_type == MoveCommandType::Move));
}

#[test]
fn knight_jumps_over_pieces_and_cannot_land_on_friends() {
    let mut b = ChessBoard::new(8, 8);
    put(&mut b, 3, 3, PieceKind::Knight, Color::White);
    put(&mut b, 3, 4, PieceKind::Pawn, Color::White);
    put(&mut b, 5, 4, PieceKind::Pawn, Color::White);
    put(&mut b, 1, 2, PieceKind::Pawn, Color::Black);
    let moves = b.possible_moves(3, 3).unwrap();
    let d = dests(&moves);
    assert_eq!(moves.len(), 7, "eight jumps, one blocked by a friend");
    assert!(!d.contains(&(5, 4)));
    let cap: Vec<&MoveCommand> =
        moves.iter().filter(|m| m.move_type == MoveCommandType::Capture).collect();
    assert_eq!(cap.len(), 1);
    assert_eq!((cap[0].end_row, cap[0].end_col), (1, 2));
}

#[test]
fn rook_stops_at_first_occupied_square() {
    let mut b = ChessBoard::new(8, 8);
    put(&mut b, 0, 0, PieceKind::Rook, Color::White);
    put(&mut b, 0, 3, PieceKind::Pawn, Color::White);
    put(&mut b, 4, 0, PieceKind::Pawn, Color::Black);
    let moves = b.possible_moves(0, 0).unwrap();
    let d = dests(&moves);
    // Along the rank: blocked by the friendly pawn, exclusive.
    assert!(d.contains(&(0, 1)) && d.contains(&(0, 2)));
    assert!(!d.contains(&(0, 3)) && !d.contains(&(0, 4)));
    // Along the file: blocked by the enemy pawn, inclusive capture.
    assert!(d.contains(&(1, 0)) && d.contains(&(2, 0)) && d.contains(&(3, 0)));
    assert!(d.contains(&(4, 0)));
    assert!(!d.contains(&(5, 0)));
    assert_eq!(moves.len(), 6);
}

#[test]
fn bishop_slides_diagonals_only() {
    let mut b = ChessBoard::new(8, 8);
    put(&mut b, 2, 2, PieceKind::Bishop, Color::White);
    put(&mut b, 4, 4, PieceKind::Knight, Color::Black);
    let moves = b.possible_moves(2, 2).unwrap();
    let d = dests(&moves);
    assert!(d.contains(&(3, 3)));
    assert!(d.contains(&(4, 4)), "inclusive enemy capture");
    assert!(!d.contains(&(5, 5)), "nothing beyond the first occupied square");
    assert!(d.contains(&(0, 0)) && d.contains(&(1, 1)));
    assert!(d.contains(&(0, 4)) && d.contains(&(1, 3)));
    assert!(d.contains(&(3, 1)) && d.contains(&(4, 0)));
    assert!(!d.contains(&(2, 4)), "no orthogonal destinations");
}

#[test]
fn queen_is_union_of_rook_and_bishop() {
    let mut b = ChessBoard::new(8, 8);
    put(&mut b, 3, 3, PieceKind::Queen, Color::White);
    let moves = b.possible_moves(3, 3).unwrap();
    // On an empty board the queen reaches every square of its rays.
    assert_eq!(moves.len(), 7 + 7 + 13);
}

#[test]
fn capture_targets_are_subset_of_move_destinations() {
    let mut b = ChessBoard::new(8, 8);
    put(&mut b, 0, 0, PieceKind::Rook, Color::White);
    put(&mut b, 0, 3, PieceKind::Pawn, Color::Black);
    put(&mut b, 4, 0, PieceKind::Knight, Color::Black);
    put(&mut b, 2, 2, PieceKind::Queen, Color::White);
    for (r, c) in [(0u32, 0u32), (2, 2), (0, 3), (4, 0)] {
        let moves = b.possible_moves(r, c).unwrap();
        let d = dests(&moves);
        for t in b.capture_targets(r, c).unwrap() {
            assert!(d.contains(&t), "capture target {:?} of ({},{}) is a destination", t, r, c);
        }
    }
    let rook_targets = b.capture_targets(0, 0).unwrap();
    assert_eq!(rook_targets.len(), 2);
    assert!(rook_targets.contains(&(0, 3)) && rook_targets.contains(&(4, 0)));
}

#[test]
fn pawn_capture_onto_last_rank_is_promotion() {
    let mut b = ChessBoard::new(8, 8);
    put(&mut b, 6, 1, PieceKind::Pawn, Color::White);
    put(&mut b, 7, 0, PieceKind::Rook, Color::Black);
    put(&mut b, 7, 1, PieceKind::Rook, Color::Black);
    let moves = b.possible_moves(6, 1).unwrap();
    // Straight advance is blocked; the diagonal capture promotes.
    assert_eq!(moves.len(), 1);
    assert_eq!(moves[0].move_type, MoveCommandType::Promote);
    assert_eq!((moves[0].end_row, moves[0].end_col), (7, 0));
    let targets = b.capture_targets(6, 1).unwrap();
    assert_eq!(targets, vec![(7, 0)]);
}

#[test]
fn black_pawn_moves_toward_lower_rows() {
    let mut b = ChessBoard::new(8, 8);
    put(&mut b, 6, 4, PieceKind::Pawn, Color::Black);
    let moves = b.possible_moves(6, 4).unwrap();
    let d = dests(&moves);
    assert_eq!(moves.len(), 2);
    assert!(d.contains(&(5, 4)) && d.contains(&(4, 4)));
    let open: Vec<&MoveCommand> =
        moves.iter().filter(|m| m.move_type == MoveCommandType::PawnOpenMove).collect();
    assert_eq!(open.len(), 1);
    assert_eq!((open[0].end_row, open[0].end_col), (4, 4));
}

#[test]
fn moved_pawn_loses_double_step() {
    let mut b = ChessBoard::new(8, 8);
    b.set_piece(1, 0, Some(ChessPiece { kind: PieceKind::Pawn, color: Color::White, moves: 1 }))
        .unwrap();
    let moves = b.possible_moves(1, 0).unwrap();
    assert_eq!(moves.len(), 1);
    assert_eq!((moves[0].end_row, moves[0].end_col), (2, 0));
}

#[test]
fn castle_is_blocked_by_attacked_transit_square() {
    let mut b = ChessBoard::standard();
    b.set_piece(0, 5, None).unwrap();
    b.set_piece(0, 6, None).unwrap();
    // A black rook bearing down the cleared f-file attacks the transit
    // square f1.
    b.set_piece(6, 5, None).unwrap();
    b.set_piece(1, 5, None).unwrap();
    b.set_piece(4, 5, Some(ChessPiece { kind: PieceKind::Rook, color: Color::Black, moves: 0 }))
        .unwrap();
    let moves = b.possible_moves(0, 4).unwrap();
    assert!(moves.iter().all(|m| m.move_type != MoveCommandType::KingSideCastle));
}
