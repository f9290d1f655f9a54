use rust_compute::chess_board::ChessBoard;
use rust_compute::chess_piece::{ChessPiece, Color, PieceKind};

fn put(b: &mut ChessBoard, r: u32, c: u32, kind: PieceKind, color: Color) {
    b.set_piece(r, c, Some(ChessPiece { kind, color, moves: 0 })).unwrap();
}

#[test]
fn starting_board_evaluates_to_zero() {
    let b = ChessBoard::standard();
    assert_eq!(b.evaluate(), 0);
}

#[test]
fn material_imbalance_shows_in_evaluation() {
    let mut b = ChessBoard::standard();
    // Removing Black's queen leaves White ahead by a queen.
    b.set_piece(7, 3, None).unwrap();
    assert_eq!(b.evaluate(), 900);
    // Removing a White rook too nets 400.
    b.set_piece(0, 0, None).unwrap();
    assert_eq!(b.evaluate(), 400);
}

#[test]
fn evaluation_negates_under_color_swap_of_mirrored_board() {
    let mut a = ChessBoard::new(8, 8);
    put(&mut a, 0, 0, PieceKind::King, Color::White);
    put(&mut a, 7, 7, PieceKind::King, Color::Black);
    put(&mut a, 2, 2, PieceKind::Queen, Color::White);
    put(&mut a, 5, 5, PieceKind::Rook, Color::Black);
    put(&mut a, 1, 6, PieceKind::Pawn, Color::White);
    let mut m = ChessBoard::new(8, 8);
    // The same position mirrored, with every color swapped.
    put(&mut m, 7, 7, PieceKind::King, Color::Black);
    put(&mut m, 0, 0, PieceKind::King, Color::White);
    put(&mut m, 5, 5, PieceKind::Queen, Color::Black);
    put(&mut m, 2, 2, PieceKind::Rook, Color::White);
    put(&mut m, 6, 1, PieceKind::Pawn, Color::Black);
    assert_eq!(a.evaluate(), 900 - 500 + 100);
    assert_eq!(m.evaluate(), -a.evaluate());
}

#[test]
fn piece_values_and_phase_weights() {
    let b = ChessBoard::new(8, 8);
    let cases = [
        (PieceKind::Pawn, 100, 0),
        (PieceKind::Knight, 300, 1),
        (PieceKind::Bishop, 300, 1),
        (PieceKind::Rook, 500, 2),
        (PieceKind::Queen, 900, 4),
        (PieceKind::King, 10000, 0),
    ];
    for (kind, value, phase) in cases {
        let p = ChessPiece { kind, color: Color::White, moves: 0 };
        assert_eq!(p.piece_value(), value);
        assert_eq!(p.phase_weight(), phase);
        // With flat tables the tapered contribution equals the value,
        // whatever phase total is supplied.
        assert_eq!(p.computed_value(&b, 24), value as i32);
        assert_eq!(p.computed_value(&b, 0), value as i32);
        assert_eq!(p.computed_value(&b, 7), value as i32);
        let q = ChessPiece { kind, color: Color::Black, moves: 0 };
        assert_eq!(q.computed_value(&b, 24), -(value as i32));
    }
}

#[test]
fn evaluation_is_pure_and_repeatable() {
    let b = ChessBoard::standard();
    let first = b.evaluate();
    let second = b.evaluate();
    assert_eq!(first, second);
    assert_eq!(b.player_turn(), Color::White);
}
