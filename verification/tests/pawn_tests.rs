use bitboard_chess::bit_board::BitBoard;
use bitboard_chess::engine::{
    apply_double_pawn_push, apply_enpessant, apply_promotion, unapply_double_pawn_push,
    unapply_promotion, unpply_enpessant, PieceType,
};
use bitboard_chess::player::Player;
use bitboard_chess::utils::{get_bit, set_bit};

#[test]
fn test_apply_unapply_double_pawn_push() {
    // Create a test board
    let mut board = BitBoard::get_empty_board();

    // Set up initial board state with a white pawn at e2 (index 12)
    let src = 12; // e2 square
    let dest = 28; // e4 square (double push)
    let mov = (dest as u16) << 6 | (src as u16);

    set_bit(&mut board.white_set.pawns, src);
    set_bit(&mut board.white_set.occupied, src);

    let initial_white_pawns = board.white_set.pawns;
    let initial_white_occupied = board.white_set.occupied;

    let _res = apply_double_pawn_push(&mut board, Player::White, mov);

    assert_eq!(get_bit(board.white_set.pawns, src), false, "Pawn should be removed from src");
    assert_eq!(
        get_bit(board.white_set.occupied, src),
        false,
        "Occupied bit should be removed from src"
    );
    assert_eq!(get_bit(board.white_set.pawns, dest), true, "Pawn should be added to dest");
    assert_eq!(
        get_bit(board.white_set.occupied, dest),
        true,
        "Occupied bit should be added to dest"
    );

    // For white, the en passant square would be e3 (index 20)
    assert_eq!(
        board.white_set.double_push_pawns,
        1u64 << 20,
        "Double push flag should be set at e3"
    );

    unapply_double_pawn_push(&mut board, Player::White, mov, 0);

    assert_eq!(
        board.white_set.pawns, initial_white_pawns,
        "Pawns should be restored to initial state"
    );
    assert_eq!(
        board.white_set.occupied, initial_white_occupied,
        "Occupied bits should be restored"
    );
    assert_eq!(board.white_set.double_push_pawns, 0, "Double push flag should be reset to 0");

    // Now test for black pawn (from e7 to e5)
    let mut board = BitBoard::get_empty_board();

    let src = 52; // e7 square
    let dest = 36; // e5 square (double push)
    let mov = (dest as u16) << 6 | (src as u16);

    set_bit(&mut board.black_set.pawns, src);
    set_bit(&mut board.black_set.occupied, src);

    let initial_black_pawns = board.black_set.pawns;
    let initial_black_occupied = board.black_set.occupied;

    apply_double_pawn_push(&mut board, Player::Black, mov);

    assert_eq!(get_bit(board.black_set.pawns, src), false, "Black pawn should be removed from src");
    assert_eq!(
        get_bit(board.black_set.occupied, src),
        false,
        "Black occupied bit should be removed from src"
    );
    assert_eq!(get_bit(board.black_set.pawns, dest), true, "Black pawn should be added to dest");
    assert_eq!(
        get_bit(board.black_set.occupied, dest),
        true,
        "Black occupied bit should be added to dest"
    );

    // For black, the en passant square would be e6 (index 44)
    assert_eq!(
        board.black_set.double_push_pawns,
        1u64 << 44,
        "Double push flag should be set at e6"
    );

    unapply_double_pawn_push(&mut board, Player::Black, mov, 0);

    assert_eq!(
        board.black_set.pawns, initial_black_pawns,
        "Black pawns should be restored to initial state"
    );
    assert_eq!(
        board.black_set.occupied, initial_black_occupied,
        "Black occupied bits should be restored"
    );
    assert_eq!(board.black_set.double_push_pawns, 0, "Double push flag should be reset to 0");
}

#[test]
fn test_apply_unapply_enpassant() {
    // White pawn e5 captures the black pawn that just double-pushed d7-d5,
    // landing on d6 and removing the pawn on d5.
    let mut board = BitBoard::get_empty_board();
    let src = 36; // e5
    let dest = 43; // d6 (the en-passant target square)
    let victim = 35; // d5

    set_bit(&mut board.white_set.pawns, src);
    set_bit(&mut board.white_set.occupied, src);
    set_bit(&mut board.black_set.pawns, victim);
    set_bit(&mut board.black_set.occupied, victim);
    board.black_set.double_push_pawns = 1u64 << dest;

    let initial = board.clone();

    let mov = (dest as u16) << 6 | (src as u16) | (5u16 << 12);
    let (saved_dpp, _) = apply_enpessant(&mut board, Player::White, mov);

    assert_eq!(saved_dpp, 1u64 << dest);
    assert_eq!(board.white_set.pawns, 1u64 << dest);
    assert_eq!(board.white_set.occupied, 1u64 << dest);
    assert_eq!(board.black_set.pawns, 0);
    assert_eq!(board.black_set.occupied, 0);
    assert_eq!(board.black_set.double_push_pawns, 0);

    unpply_enpessant(&mut board, Player::White, mov, saved_dpp);

    assert_eq!(board.white_set.pawns, initial.white_set.pawns);
    assert_eq!(board.white_set.occupied, initial.white_set.occupied);
    assert_eq!(board.black_set.pawns, initial.black_set.pawns);
    assert_eq!(board.black_set.occupied, initial.black_set.occupied);
    assert_eq!(board.black_set.double_push_pawns, initial.black_set.double_push_pawns);
}

#[test]
fn test_apply_unapply_promotion_with_capture() {
    // White pawn b7 captures the black rook a8 and promotes to a queen; the
    // capture also revokes black's queen-side castle right.
    let mut board = BitBoard::get_empty_board();
    let src = 49; // b7
    let dest = 56; // a8

    set_bit(&mut board.white_set.pawns, src);
    set_bit(&mut board.white_set.occupied, src);
    set_bit(&mut board.black_set.rooks, dest);
    set_bit(&mut board.black_set.occupied, dest);
    board.black_set.castle_rooks = 1u64 << 56;

    let initial = board.clone();

    let mov = (dest as u16) << 6 | (src as u16) | (4u16 << 12); // promote to queen
    let (promoted, captured, saved_rooks, saved_dpp) =
        apply_promotion(&mut board, Player::White, mov);

    assert_eq!(promoted, PieceType::Queen);
    assert_eq!(captured, Some(PieceType::Rook));
    assert_eq!(saved_rooks, 1u64 << 56);
    assert_eq!(board.white_set.pawns, 0);
    assert_eq!(board.white_set.queens, 1u64 << dest);
    assert_eq!(board.white_set.occupied, 1u64 << dest);
    assert_eq!(board.black_set.rooks, 0);
    assert_eq!(board.black_set.occupied, 0);
    assert_eq!(board.black_set.castle_rooks, 0, "capturing the corner rook revokes the right");

    unapply_promotion(&mut board, Player::White, mov, promoted, captured, saved_rooks, saved_dpp);

    assert_eq!(board.white_set.pawns, initial.white_set.pawns);
    assert_eq!(board.white_set.queens, initial.white_set.queens);
    assert_eq!(board.white_set.occupied, initial.white_set.occupied);
    assert_eq!(board.black_set.rooks, initial.black_set.rooks);
    assert_eq!(board.black_set.occupied, initial.black_set.occupied);
    assert_eq!(board.black_set.castle_rooks, initial.black_set.castle_rooks);
}
