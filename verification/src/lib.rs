//! A chess position model: board representation, per-piece move generation
//! (including castling, en passant and promotion) and a phase-tapered static
//! evaluation. The crate is a pure computation core: a host owns the game
//! loop and calls in with plain values.

pub mod bishop_model;
pub mod chess_board;
pub mod chess_piece;
pub mod evaluator;
pub mod king_model;
pub mod knight_model;
pub mod move_command;
pub mod pawn_model;
pub mod queen_model;
pub mod rook_model;

pub use chess_board::BoardView;
pub use chess_board::ChessBoard;
pub use chess_board::ChessError;
pub use chess_board::new_chess_board;
pub use chess_piece::Color;
pub use move_command::MoveCommand;
pub use move_command::MoveCommandType;
pub use chess_piece::PieceKind;
pub use chess_piece::ChessPiece;
