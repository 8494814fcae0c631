use bitboard_chess::attack_maps::Tables;
use bitboard_chess::bit_board::BitBoard;
use bitboard_chess::engine::{apply_normal_move, unapply_normal_move, PieceType};
use bitboard_chess::player::Player;
use bitboard_chess::utils::{flip_bit, get_bit, get_lsb, get_msb, reset_bit, set_bit, test_bit};

#[test]
fn test_bit_utils() {
    let mut b: u64 = 0;
    set_bit(&mut b, 5);
    assert_eq!(b, 1u64 << 5);
    assert!(get_bit(b, 5));
    assert!(test_bit(b, 5));
    assert!(!get_bit(b, 6));
    flip_bit(&mut b, 6);
    assert_eq!(b, (1u64 << 5) | (1u64 << 6));
    reset_bit(&mut b, 5);
    assert_eq!(b, 1u64 << 6);
    assert_eq!(get_lsb(b), 6);
    assert_eq!(get_lsb(0), 64);
    assert_eq!(get_lsb(0b1000), 3);
    assert_eq!(get_msb(1), 63);
    assert_eq!(get_msb(0), 64);
}

#[test]
fn test_attack_tables_entries() {
    let t = Tables::new();

    // Knight on a1 reaches b3 and c2.
    assert_eq!(t.knight_jumps[0], (1u64 << 17) | (1u64 << 10));
    // King on a1 steps to a2, b1, b2.
    assert_eq!(t.king_attacks[0], (1u64 << 1) | (1u64 << 8) | (1u64 << 9));
    // North ray from a1 is the rest of the a-file.
    let mut north_a1: u64 = 0;
    for r in 1..8 {
        north_a1 |= 1u64 << (r * 8);
    }
    assert_eq!(t.straight_rays[0][0], north_a1);
    // East ray from a1 is the rest of rank 1.
    let mut east_a1: u64 = 0;
    for f in 1..8 {
        east_a1 |= 1u64 << f;
    }
    assert_eq!(t.straight_rays[1][0], east_a1);
    // NE diagonal from a1 is the long diagonal.
    let mut ne_a1: u64 = 0;
    for d in 1..8 {
        ne_a1 |= 1u64 << (d * 9);
    }
    assert_eq!(t.diagonal_rays[0][0], ne_a1);
    // White pawn a2 pushes to a3 and captures only toward b3.
    assert_eq!(t.pawn_push[0][8], 1u64 << 16);
    assert_eq!(t.pawn_captures[0][8], 1u64 << 17);
    // Black pawn h7 captures only toward g6.
    assert_eq!(t.pawn_captures[1][55], 1u64 << 46);
    // Sentinel entries hold zero.
    assert_eq!(t.straight_rays[2][64], 0);
    assert_eq!(t.diagonal_rays[3][64], 0);
    assert_eq!(t.knight_jumps[64], 0);
    assert_eq!(t.king_attacks[64], 0);
}

#[test]
fn test_bishop_check_through_empty_diagonal() {
    // A bishop on the king's diagonal gives check over any number of empty
    // squares; a single blocker on that diagonal stops it.
    let t = Tables::new();
    let mut board = BitBoard::get_empty_board();
    board.white_set.kings = 1u64 << 4; // e1
    board.white_set.occupied = board.white_set.kings;
    board.black_set.kings = 1u64 << 60; // e8
    board.black_set.bishops = 1u64 << 31; // h4, on e1's NE diagonal
    board.black_set.occupied = board.black_set.kings | board.black_set.bishops;

    assert!(board.king_in_check(Player::White, &t));

    // A white pawn on g3 blocks the diagonal.
    board.white_set.pawns = 1u64 << 22;
    board.white_set.occupied = board.white_set.kings | board.white_set.pawns;
    assert!(!board.king_in_check(Player::White, &t));
}

#[test]
fn test_checks_by_other_kinds() {
    let t = Tables::new();

    // Knight check.
    let mut board = BitBoard::get_empty_board();
    board.white_set.kings = 1u64 << 4; // e1
    board.white_set.occupied = board.white_set.kings;
    board.black_set.kings = 1u64 << 60;
    board.black_set.knights = 1u64 << 21; // f3
    board.black_set.occupied = board.black_set.kings | board.black_set.knights;
    assert!(board.king_in_check(Player::White, &t));

    // Rook check along a file, and a blocker stopping it.
    let mut board = BitBoard::get_empty_board();
    board.white_set.kings = 1u64 << 4; // e1
    board.white_set.occupied = board.white_set.kings;
    board.black_set.kings = 1u64 << 63;
    board.black_set.rooks = 1u64 << 60; // e8
    board.black_set.occupied = board.black_set.kings | board.black_set.rooks;
    assert!(board.king_in_check(Player::White, &t));
    board.black_set.pawns = 1u64 << 28; // e4 blocks
    board.black_set.occupied |= board.black_set.pawns;
    assert!(!board.king_in_check(Player::White, &t));

    // Pawn check: a black pawn on d2 attacks e1.
    let mut board = BitBoard::get_empty_board();
    board.white_set.kings = 1u64 << 4; // e1
    board.white_set.occupied = board.white_set.kings;
    board.black_set.kings = 1u64 << 60;
    board.black_set.pawns = 1u64 << 11; // d2
    board.black_set.occupied = board.black_set.kings | board.black_set.pawns;
    assert!(board.king_in_check(Player::White, &t));

    // King adjacency counts as check.
    let mut board = BitBoard::get_empty_board();
    board.white_set.kings = 1u64 << 4; // e1
    board.white_set.occupied = board.white_set.kings;
    board.black_set.kings = 1u64 << 12; // e2
    board.black_set.occupied = board.black_set.kings;
    assert!(board.king_in_check(Player::White, &t));
}

#[test]
fn test_starting_position_has_twenty_moves() {
    let t = Tables::new();
    let mut board = BitBoard::get_starting_board();
    board.generate_attack_maps(Player::White, &t);
    board.generate_attack_maps(Player::Black, &t);

    let moves = board.generate_moves(Player::White, &t);
    assert_eq!(moves.len(), 20);

    // The double push e2-e4 is tagged 8.
    let e2e4: u16 = 12 | (28 << 6) | (8 << 12);
    assert!(moves.contains(&e2e4));
    // The single push e2-e3 is a plain move.
    let e2e3: u16 = 12 | (20 << 6);
    assert!(moves.contains(&e2e3));
    // The knight jump g1-f3 is a plain move.
    let g1f3: u16 = 6 | (21 << 6);
    assert!(moves.contains(&g1f3));
}

#[test]
fn test_normal_capture_revokes_castle_right() {
    // A white rook takes the rook on a8; the capture clears black's
    // queen-side right, and reversing the move restores everything.
    let mut board = BitBoard::get_empty_board();
    board.white_set.kings = 1u64 << 4;
    board.white_set.rooks = 1u64 << 32; // a5
    board.white_set.occupied = board.white_set.kings | board.white_set.rooks;
    board.black_set.kings = 1u64 << 60;
    board.black_set.rooks = 1u64 << 56; // a8
    board.black_set.occupied = board.black_set.kings | board.black_set.rooks;
    board.black_set.castle_rooks = 1u64 << 56;

    let initial = board.clone();

    let mov: u16 = 32 | (56 << 6); // a5 to a8, tag 0
    let (src_kind, captured, ally_rooks, enemy_rooks, saved_dpp) =
        apply_normal_move(&mut board, Player::White, mov);

    assert_eq!(src_kind, PieceType::Rook);
    assert_eq!(captured, Some(PieceType::Rook));
    assert_eq!(enemy_rooks, 1u64 << 56);
    assert_eq!(board.white_set.rooks, 1u64 << 56);
    assert_eq!(board.black_set.rooks, 0);
    assert_eq!(board.black_set.castle_rooks, 0);

    unapply_normal_move(
        &mut board,
        Player::White,
        mov,
        src_kind,
        captured,
        ally_rooks,
        enemy_rooks,
        saved_dpp,
    );

    assert_eq!(board.white_set.rooks, initial.white_set.rooks);
    assert_eq!(board.white_set.occupied, initial.white_set.occupied);
    assert_eq!(board.black_set.rooks, initial.black_set.rooks);
    assert_eq!(board.black_set.occupied, initial.black_set.occupied);
    assert_eq!(board.black_set.castle_rooks, initial.black_set.castle_rooks);
}
