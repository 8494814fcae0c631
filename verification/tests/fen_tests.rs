use bitboard_chess::attack_maps::Tables;
use bitboard_chess::bit_board::BitBoard;
use bitboard_chess::player::Player;

const START_FEN: &str = "rnbqkbnr/pppppppp/8/8/8/8/PPPPPPPP/RNBQKBNR w KQkq - 0 1";

fn persistent_eq(a: &BitBoard, b: &BitBoard) -> bool {
    a.white_set.kings == b.white_set.kings
        && a.white_set.queens == b.white_set.queens
        && a.white_set.rooks == b.white_set.rooks
        && a.white_set.bishops == b.white_set.bishops
        && a.white_set.knights == b.white_set.knights
        && a.white_set.pawns == b.white_set.pawns
        && a.white_set.occupied == b.white_set.occupied
        && a.white_set.castle_rooks == b.white_set.castle_rooks
        && a.white_set.double_push_pawns == b.white_set.double_push_pawns
        && a.black_set.kings == b.black_set.kings
        && a.black_set.queens == b.black_set.queens
        && a.black_set.rooks == b.black_set.rooks
        && a.black_set.bishops == b.black_set.bishops
        && a.black_set.knights == b.black_set.knights
        && a.black_set.pawns == b.black_set.pawns
        && a.black_set.occupied == b.black_set.occupied
        && a.black_set.castle_rooks == b.black_set.castle_rooks
        && a.black_set.double_push_pawns == b.black_set.double_push_pawns
        && a.player == b.player
}

#[test]
fn test_fen_parses_starting_position() {
    let t = Tables::new();
    let board = BitBoard::fen_to_bitboard(START_FEN, &t).unwrap();
    let start = BitBoard::get_starting_board();
    assert_eq!(board.white_set.pawns, start.white_set.pawns);
    assert_eq!(board.white_set.rooks, start.white_set.rooks);
    assert_eq!(board.white_set.knights, start.white_set.knights);
    assert_eq!(board.white_set.bishops, start.white_set.bishops);
    assert_eq!(board.white_set.queens, start.white_set.queens);
    assert_eq!(board.white_set.kings, start.white_set.kings);
    assert_eq!(board.white_set.occupied, start.white_set.occupied);
    assert_eq!(board.white_set.castle_rooks, start.white_set.castle_rooks);
    assert_eq!(board.black_set.pawns, start.black_set.pawns);
    assert_eq!(board.black_set.occupied, start.black_set.occupied);
    assert_eq!(board.black_set.castle_rooks, start.black_set.castle_rooks);
    assert_eq!(board.player, Player::White);
}

#[test]
fn test_fen_emit_starting_position() {
    let board = BitBoard::get_starting_board();
    let fen = board.bitboard_to_fen(false);
    assert_eq!(fen, START_FEN);
}

#[test]
fn test_fen_round_trip_positions() {
    let t = Tables::new();
    let fens = [
        "rnbqkbnr/pppppppp/8/8/8/8/PPPPPPPP/RNBQKBNR w KQkq - 0 1",
        "r3k2r/p1ppqpb1/bn2pnp1/3PN3/1p2P3/2N2Q1p/PPPBBPPP/R3K2R w KQkq - 0 1",
        "8/2p5/3p4/KP5r/1R3p1k/8/4P1P1/8 w - - 0 1",
        "rnbq1k1r/pp1Pbppp/2p5/8/2B5/8/PPP1NnPP/RNBQK2R w KQ - 1 8",
        "rnbqkbnr/ppp1pppp/8/8/3pP3/8/PPPP1PPP/RNBQKBNR b KQkq e3 0 1",
    ];
    for fen in fens.iter() {
        let board = BitBoard::fen_to_bitboard(fen, &t).unwrap();
        let black = board.player == Player::Black;
        let emitted = board.bitboard_to_fen(black);
        let reparsed = BitBoard::fen_to_bitboard(emitted.as_str(), &t).unwrap();
        assert!(persistent_eq(&board, &reparsed), "round trip failed for {}", fen);
    }
}

#[test]
fn test_fen_en_passant_field() {
    let t = Tables::new();
    // After e2-e4 the target square e3 is marked on white's side.
    let board = BitBoard::fen_to_bitboard(
        "rnbqkbnr/pppppppp/8/8/4P3/8/PPPP1PPP/RNBQKBNR b KQkq e3 0 1",
        &t,
    )
    .unwrap();
    assert_eq!(board.white_set.double_push_pawns, 1u64 << 20);
    assert_eq!(board.black_set.double_push_pawns, 0);
    assert_eq!(board.player, Player::Black);

    // After a black push to d5 the target square d6 is marked on black's
    // side.
    let board = BitBoard::fen_to_bitboard(
        "rnbqkbnr/ppp1pppp/8/3p4/8/8/PPPPPPPP/RNBQKBNR w KQkq d6 0 2",
        &t,
    )
    .unwrap();
    assert_eq!(board.black_set.double_push_pawns, 1u64 << 43);
    assert_eq!(board.white_set.double_push_pawns, 0);
}

#[test]
fn test_fen_rejects_malformed_records() {
    let t = Tables::new();
    // Bad piece character.
    assert!(BitBoard::fen_to_bitboard(
        "rnbqkbnr/pppppppp/8/8/8/8/PPPPPPPP/RNBQKBNX w KQkq - 0 1",
        &t
    )
    .is_err());
    // Too few ranks.
    assert!(BitBoard::fen_to_bitboard("8/8/8/8/8/8/8 w - - 0 1", &t).is_err());
    // A rank that is too long.
    assert!(BitBoard::fen_to_bitboard(
        "rnbqkbnr/pppppppp/9/8/8/8/PPPPPPPP/RNBQKBNR w KQkq - 0 1",
        &t
    )
    .is_err());
    // Bad side to move.
    assert!(BitBoard::fen_to_bitboard(
        "rnbqkbnr/pppppppp/8/8/8/8/PPPPPPPP/RNBQKBNR x KQkq - 0 1",
        &t
    )
    .is_err());
    // Out-of-range en-passant square.
    assert!(BitBoard::fen_to_bitboard(
        "rnbqkbnr/pppppppp/8/8/8/8/PPPPPPPP/RNBQKBNR w KQkq e9 0 1",
        &t
    )
    .is_err());
    // En-passant square on a rank that cannot follow a double push.
    assert!(BitBoard::fen_to_bitboard(
        "rnbqkbnr/pppppppp/8/8/8/8/PPPPPPPP/RNBQKBNR w KQkq e4 0 1",
        &t
    )
    .is_err());
    // Missing counter fields.
    assert!(BitBoard::fen_to_bitboard("rnbqkbnr/pppppppp/8/8/8/8/PPPPPPPP/RNBQKBNR w KQkq -", &t)
        .is_err());
    // Empty input.
    assert!(BitBoard::fen_to_bitboard("", &t).is_err());
}
