// Perft: count the legal move sequences of a fixed depth from reference
// positions and compare against published totals. Every node regenerates
// both attack maps, applies each pseudo-legal move, rejects it if the
// mover's king is left in check, and restores the position through the
// undo snapshot.

use bitboard_chess::attack_maps::Tables;
use bitboard_chess::bit_board::BitBoard;
use bitboard_chess::player::Player;

fn perft(board: &mut BitBoard, turn: Player, depth: u32, tables: &Tables) -> u64 {
    if depth == 0 {
        return 1;
    }

    board.generate_attack_maps(Player::White, tables);
    board.generate_attack_maps(Player::Black, tables);

    let moves = board.generate_moves(turn, tables);
    let mut move_count: u64 = 0;

    for mov in moves {
        let mov_result = board.apply_move(turn, mov);
        if !board.king_in_check(turn, tables) {
            move_count += perft(board, turn.other(), depth - 1, tables);
        }
        board.unapply_move(turn, mov, mov_result);
    }

    move_count
}

fn perft_from_fen(fen: &str, depth: u32) -> u64 {
    let tables = Tables::new();
    let mut board = BitBoard::fen_to_bitboard(fen, &tables).unwrap();
    let turn = board.player;
    perft(&mut board, turn, depth, &tables)
}

#[test]
fn test_perft_starting_position() {
    let fen = "rnbqkbnr/pppppppp/8/8/8/8/PPPPPPPP/RNBQKBNR w KQkq - 0 1";
    assert_eq!(perft_from_fen(fen, 1), 20);
    assert_eq!(perft_from_fen(fen, 2), 400);
    assert_eq!(perft_from_fen(fen, 3), 8902);
    assert_eq!(perft_from_fen(fen, 4), 197281);
}

#[test]
fn test_perft_castling_position() {
    let fen = "r3k2r/p1ppqpb1/bn2pnp1/3PN3/1p2P3/2N2Q1p/PPPBBPPP/R3K2R w KQkq - 0 1";
    assert_eq!(perft_from_fen(fen, 1), 48);
    assert_eq!(perft_from_fen(fen, 2), 2039);
    assert_eq!(perft_from_fen(fen, 3), 97862);
}

#[test]
fn test_perft_endgame_position() {
    let fen = "8/2p5/3p4/KP5r/1R3p1k/8/4P1P1/8 w - - 0 1";
    assert_eq!(perft_from_fen(fen, 1), 14);
    assert_eq!(perft_from_fen(fen, 2), 191);
    assert_eq!(perft_from_fen(fen, 3), 2812);
    assert_eq!(perft_from_fen(fen, 4), 43238);
}

#[test]
fn test_perft_promotion_position() {
    let fen = "r3k2r/Pppp1ppp/1b3nbN/nP6/BBP1P3/q4N2/Pp1P2PP/R2Q1RK1 w kq - 0 1";
    assert_eq!(perft_from_fen(fen, 1), 6);
    assert_eq!(perft_from_fen(fen, 2), 264);
    assert_eq!(perft_from_fen(fen, 3), 9467);
}

#[test]
fn test_perft_middle_game_position() {
    let fen = "rnbq1k1r/pp1Pbppp/2p5/8/2B5/8/PPP1NnPP/RNBQK2R w KQ - 1 8";
    assert_eq!(perft_from_fen(fen, 1), 44);
    assert_eq!(perft_from_fen(fen, 2), 1486);
    assert_eq!(perft_from_fen(fen, 3), 62379);
}

#[test]
fn test_perft_symmetrical_position() {
    let fen = "r4rk1/1pp1qppp/p1np1n2/2b1p1B1/2B1P1b1/P1NP1N2/1PP1QPPP/R4RK1 w - - 0 10";
    assert_eq!(perft_from_fen(fen, 1), 46);
    assert_eq!(perft_from_fen(fen, 2), 2079);
    assert_eq!(perft_from_fen(fen, 3), 89890);
}
