use bitboard_chess::bit_board::BitBoard;
use bitboard_chess::engine::{apply_castle_move, unapply_castle_move};
use bitboard_chess::player::Player;

const CASTLE_KING: u16 = 6;
const CASTLE_QUEEN: u16 = 7;

// Helper to create a clean board with kings and rooks in castling position.
fn setup_castling_board() -> BitBoard {
    let mut board = BitBoard::get_empty_board();

    board.white_set.kings = 1u64 << 4; // King at e1
    board.white_set.rooks = (1u64 << 0) | (1u64 << 7); // Rooks at a1 and h1
    board.white_set.occupied = board.white_set.kings | board.white_set.rooks;
    board.white_set.castle_rooks = board.white_set.rooks;

    board.black_set.kings = 1u64 << 60; // King at e8
    board.black_set.rooks = (1u64 << 56) | (1u64 << 63); // Rooks at a8 and h8
    board.black_set.occupied = board.black_set.kings | board.black_set.rooks;
    board.black_set.castle_rooks = board.black_set.rooks;

    board
}

// Helper to check that two boards agree on every persistent bitboard.
fn compare_boards(board1: &BitBoard, board2: &BitBoard) -> bool {
    board1.white_set.kings == board2.white_set.kings
        && board1.white_set.queens == board2.white_set.queens
        && board1.white_set.rooks == board2.white_set.rooks
        && board1.white_set.bishops == board2.white_set.bishops
        && board1.white_set.knights == board2.white_set.knights
        && board1.white_set.pawns == board2.white_set.pawns
        && board1.white_set.occupied == board2.white_set.occupied
        && board1.white_set.castle_rooks == board2.white_set.castle_rooks
        && board1.black_set.kings == board2.black_set.kings
        && board1.black_set.queens == board2.black_set.queens
        && board1.black_set.rooks == board2.black_set.rooks
        && board1.black_set.bishops == board2.black_set.bishops
        && board1.black_set.knights == board2.black_set.knights
        && board1.black_set.pawns == board2.black_set.pawns
        && board1.black_set.occupied == board2.black_set.occupied
        && board1.black_set.castle_rooks == board2.black_set.castle_rooks
}

#[test]
fn test_white_kingside_castle() {
    let mut board = setup_castling_board();
    let initial_board = setup_castling_board();
    let king_side_castle = CASTLE_KING << 12;

    let initial_castle_rooks = board.white_set.castle_rooks;

    let saved_castle_rooks = apply_castle_move(&mut board, Player::White, king_side_castle).0;

    assert_eq!(saved_castle_rooks, initial_castle_rooks);
    assert_eq!(board.white_set.kings, 1u64 << 6); // King should be at g1
    assert_eq!(board.white_set.rooks, (1u64 << 0) | (1u64 << 5)); // Rooks at a1 and f1
    assert_eq!(board.white_set.occupied, (1u64 << 6) | (1u64 << 0) | (1u64 << 5));
    assert_eq!(board.white_set.castle_rooks, 0);

    unapply_castle_move(&mut board, Player::White, king_side_castle, saved_castle_rooks, 0);

    assert_eq!(board.white_set.kings, 1u64 << 4); // King should be at e1
    assert_eq!(board.white_set.rooks, (1u64 << 0) | (1u64 << 7)); // Rooks at a1 and h1
    assert_eq!(board.white_set.occupied, (1u64 << 4) | (1u64 << 0) | (1u64 << 7));
    assert_eq!(board.white_set.castle_rooks, initial_castle_rooks);

    assert!(board.white_set.kings == initial_board.white_set.kings);
    assert!(board.white_set.rooks == initial_board.white_set.rooks);
    assert!(board.white_set.occupied == initial_board.white_set.occupied);
    assert!(board.white_set.castle_rooks == initial_board.white_set.castle_rooks);
    assert!(compare_boards(&board, &initial_board));
}

#[test]
fn test_white_queenside_castle() {
    let mut board = setup_castling_board();
    let initial_board = setup_castling_board();
    let queen_side_castle = CASTLE_QUEEN << 12;

    let initial_castle_rooks = board.white_set.castle_rooks;

    let saved_castle_rooks = apply_castle_move(&mut board, Player::White, queen_side_castle).0;

    assert_eq!(saved_castle_rooks, initial_castle_rooks);
    assert_eq!(board.white_set.kings, 1u64 << 2); // King should be at c1
    assert_eq!(board.white_set.rooks, (1u64 << 3) | (1u64 << 7)); // Rooks at d1 and h1
    assert_eq!(board.white_set.occupied, (1u64 << 2) | (1u64 << 3) | (1u64 << 7));
    assert_eq!(board.white_set.castle_rooks, 0);

    unapply_castle_move(&mut board, Player::White, queen_side_castle, saved_castle_rooks, 0);

    assert!(compare_boards(&board, &initial_board));
}

#[test]
fn test_black_kingside_castle() {
    let mut board = setup_castling_board();
    let initial_board = setup_castling_board();
    let king_side_castle = CASTLE_KING << 12;

    let initial_castle_rooks = board.black_set.castle_rooks;

    let saved_castle_rooks = apply_castle_move(&mut board, Player::Black, king_side_castle).0;

    assert_eq!(saved_castle_rooks, initial_castle_rooks);
    assert_eq!(board.black_set.kings, 1u64 << 62); // King should be at g8
    assert_eq!(board.black_set.rooks, (1u64 << 56) | (1u64 << 61)); // Rooks at a8 and f8
    assert_eq!(board.black_set.occupied, (1u64 << 62) | (1u64 << 56) | (1u64 << 61));
    assert_eq!(board.black_set.castle_rooks, 0);

    unapply_castle_move(&mut board, Player::Black, king_side_castle, saved_castle_rooks, 0);

    assert!(compare_boards(&board, &initial_board));
}

#[test]
fn test_black_queenside_castle() {
    let mut board = setup_castling_board();
    let initial_board = setup_castling_board();
    let queen_side_castle = CASTLE_QUEEN << 12;

    let initial_castle_rooks = board.black_set.castle_rooks;

    let saved_castle_rooks = apply_castle_move(&mut board, Player::Black, queen_side_castle).0;

    assert_eq!(saved_castle_rooks, initial_castle_rooks);
    assert_eq!(board.black_set.kings, 1u64 << 58); // King should be at c8
    assert_eq!(board.black_set.rooks, (1u64 << 59) | (1u64 << 63)); // Rooks at d8 and h8
    assert_eq!(board.black_set.occupied, (1u64 << 58) | (1u64 << 59) | (1u64 << 63));
    assert_eq!(board.black_set.castle_rooks, 0);

    unapply_castle_move(&mut board, Player::Black, queen_side_castle, saved_castle_rooks, 0);

    assert!(compare_boards(&board, &initial_board));
}

#[test]
fn test_apply_unapply_sequence() {
    // Applying and unapplying castles for both sides in LIFO order restores
    // the initial board.
    let mut board = setup_castling_board();
    let initial_board = setup_castling_board();

    let white_initial_castle_rooks = board.white_set.castle_rooks;
    let black_initial_castle_rooks = board.black_set.castle_rooks;

    let white_king_castle = CASTLE_KING << 12;
    let saved_white_castle_rooks =
        apply_castle_move(&mut board, Player::White, white_king_castle).0;

    assert_eq!(board.white_set.castle_rooks, 0);
    assert_eq!(saved_white_castle_rooks, white_initial_castle_rooks);

    let black_queen_castle = CASTLE_QUEEN << 12;
    let saved_black_castle_rooks =
        apply_castle_move(&mut board, Player::Black, black_queen_castle).0;

    assert_eq!(board.black_set.castle_rooks, 0);
    assert_eq!(saved_black_castle_rooks, black_initial_castle_rooks);

    unapply_castle_move(&mut board, Player::Black, black_queen_castle, saved_black_castle_rooks, 0);

    assert_eq!(board.black_set.castle_rooks, black_initial_castle_rooks);

    unapply_castle_move(&mut board, Player::White, white_king_castle, saved_white_castle_rooks, 0);

    assert_eq!(board.white_set.castle_rooks, white_initial_castle_rooks);

    assert!(compare_boards(&board, &initial_board));
}

#[test]
fn test_partial_castle_rights() {
    // Castling with only one right left saves and restores exactly that
    // right.
    let mut board = setup_castling_board();
    board.white_set.castle_rooks = 1u64 << 7; // Only the h1 rook can castle

    let initial_board = board.clone();

    let king_side_castle = CASTLE_KING << 12;
    let saved_castle_rooks = apply_castle_move(&mut board, Player::White, king_side_castle).0;

    assert_eq!(saved_castle_rooks, 1u64 << 7);
    assert_eq!(board.white_set.castle_rooks, 0);

    unapply_castle_move(&mut board, Player::White, king_side_castle, saved_castle_rooks, 0);

    assert_eq!(board.white_set.castle_rooks, 1u64 << 7);
    assert!(compare_boards(&board, &initial_board));
}
