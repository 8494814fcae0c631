//! Pseudo-legal target generation for every piece kind, and the iteration
//! that turns target bitboards into encoded 16-bit moves.

use vstd::prelude::*;

verus! {

use crate::attack_maps::diagonal_ray;
use crate::attack_maps::king_attacks_spec;
use crate::attack_maps::knight_jumps_spec;
use crate::attack_maps::pawn_captures_spec;
use crate::attack_maps::pawn_push_spec;
use crate::attack_maps::straight_ray;
use crate::attack_maps::Tables;
use crate::piece_set::PieceSet;
use crate::player::Player;
use crate::utils::bit;
use crate::utils::clear_b;
use crate::utils::lemma_clear_b_bit;
use crate::utils::lemma_clear_set_bit_shrinks;
use crate::utils::lemma_lsb_nonzero;
use crate::utils::lemma_or_basics;
use crate::utils::lemma_xor_zero;
use crate::utils::flip_bit;
use crate::utils::get_lsb;
use crate::utils::test_bit;
use vstd::std_specs::bits::u64_leading_zeros;
use vstd::std_specs::bits::u64_trailing_zeros;

pub const KNIGHT_PROMOTED: u16 = 1;

pub const BISHOP_PROMOTED: u16 = 2;

pub const ROOK_PROMOTED: u16 = 3;

pub const QUEEN_PROMOTED: u16 = 4;

pub const EN_PESSANT: u16 = 5;

pub const CASTLE_KING: u16 = 6;

pub const CASTLE_QUEEN: u16 = 7;

pub const DOUBLE_PAWN_PUSH: u16 = 8;

pub const WHITE_KING_START: usize = 4;

pub const BLACK_KING_START: usize = 60;

pub const WHITE_KINGSIDE_MASK: u64 = (1u64 << 5) | (1u64 << 6);

pub const WHITE_KINGSIDE_MASK_WITH_KING: u64 = WHITE_KINGSIDE_MASK | (1u64 << 4);

pub const WHITE_QUEENSIDE_MASK: u64 = (1u64 << 1) | (1u64 << 2) | (1u64 << 3);

pub const WHITE_SHORT_QUEENSIDE_MASK: u64 = (1u64 << 2) | (1u64 << 3);

pub const WHITE_QUEENSIDE_MASK_WITH_KING: u64 = WHITE_SHORT_QUEENSIDE_MASK | (1u64 << 4);

pub const BLACK_KINGSIDE_MASK: u64 = (1u64 << 61) | (1u64 << 62);

pub const BLACK_KINGSIDE_MASK_WITH_KING: u64 = BLACK_KINGSIDE_MASK | (1u64 << 60);

pub const BLACK_QUEENSIDE_MASK: u64 = (1u64 << 57) | (1u64 << 59) | (1u64 << 58);

pub const BLACK_SHORT_QUEENSIDE_MASK: u64 = (1u64 << 58) | (1u64 << 59);

pub const BLACK_QUEENSIDE_MASK_WITH_KING: u64 = BLACK_SHORT_QUEENSIDE_MASK | (1u64 << 60);

/// A move encoded without a tag: bits 0-5 source, bits 6-11 destination.
pub open spec fn mv(src: u16, dst: u16) -> u16 {
    src | (dst << 6)
}

/// A move with tag `tag` in bits 12-15.
pub open spec fn mvt(src: u16, dst: u16, tag: u16) -> u16 {
    mv(src, dst) | (tag << 12)
}

/// Source square of an encoded move.
pub open spec fn mv_src(m: u16) -> int {
    (m & 0x3F) as int
}

/// Destination square of an encoded move.
pub open spec fn mv_dst(m: u16) -> int {
    ((m >> 6) & 0x3F) as int
}

/// Tag of an encoded move.
pub open spec fn mv_tag(m: u16) -> int {
    (m >> 12) as int
}

/// The decoded fields of any encoded move are in range.
pub proof fn lemma_mv_bounds(m: u16)
    by (bit_vector)
    ensures
        0 <= (m & 0x3F) < 64,
        0 <= ((m >> 6) & 0x3F) < 64,
        0 <= (m >> 12) < 16,
{
}

/// Nearest blocker on a straight ray: lowest set bit for the rising
/// directions (north, east), highest for the others; 64 when the ray is
/// clear.
pub open spec fn straight_blocker(d: int, s: int, occ: u64) -> int {
    let blockers = straight_ray(d, s) & occ;
    if blockers == 0 {
        64
    } else if d == 0 || d == 1 {
        u64_trailing_zeros(blockers) as int
    } else {
        63 - u64_leading_zeros(blockers)
    }
}

/// Squares a rook on `s` reaches along direction `d` over occupancy `occ`:
/// the whole ray when clear, else the ray cut at the first blocker
/// (inclusive).
pub open spec fn straight_dir_moves(d: int, s: int, occ: u64) -> u64 {
    let r = straight_ray(d, s);
    if r & occ == 0 {
        r
    } else {
        r ^ straight_ray(d, straight_blocker(d, s, occ))
    }
}

pub open spec fn straight_moves_spec(s: int, occ: u64) -> u64 {
    straight_dir_moves(0, s, occ) | straight_dir_moves(1, s, occ) | straight_dir_moves(2, s, occ)
        | straight_dir_moves(3, s, occ)
}

/// Nearest blocker on a diagonal ray: lowest set bit for the rising
/// directions (NE, NW), highest for the falling ones; 64 when clear.
pub open spec fn diagonal_blocker(d: int, s: int, occ: u64) -> int {
    let blockers = diagonal_ray(d, s) & occ;
    if blockers == 0 {
        64
    } else if d == 0 || d == 3 {
        u64_trailing_zeros(blockers) as int
    } else {
        63 - u64_leading_zeros(blockers)
    }
}

pub open spec fn diagonal_dir_moves(d: int, s: int, occ: u64) -> u64 {
    let r = diagonal_ray(d, s);
    if r & occ == 0 {
        r
    } else {
        r ^ diagonal_ray(d, diagonal_blocker(d, s, occ))
    }
}

pub open spec fn diagonal_moves_spec(s: int, occ: u64) -> u64 {
    diagonal_dir_moves(0, s, occ) | diagonal_dir_moves(1, s, occ) | diagonal_dir_moves(2, s, occ)
        | diagonal_dir_moves(3, s, occ)
}

/// Pseudo-legal pawn targets: single push, double push from the home rank,
/// and captures onto enemy-occupied or en-passant-marked squares.
pub open spec fn pawn_moves_spec(s: int, occ: u64, c: int, enemy_dpp: u64) -> u64 {
    let push = pawn_push_spec(c, s) & !occ;
    let with_double = if c == 0 && s / 8 == 1 {
        push | ((push << 8) & !occ)
    } else if c == 1 && s / 8 == 6 {
        push | ((push >> 8) & !occ)
    } else {
        push
    };
    with_double | (pawn_captures_spec(c, s) & (occ | enemy_dpp))
}

/// Pseudo-legal king targets: the king steps, plus a castle destination for
/// each side whose rook right survives, whose between-squares are empty and
/// whose king path is unattacked.
pub open spec fn king_moves_spec(s: int, occ: u64, castle_rooks: u64, turn: bool, eam: u64) -> u64 {
    let base = king_attacks_spec(s);
    if !turn && s == 4 {
        let m1 = if bit(castle_rooks, 7) && occ & WHITE_KINGSIDE_MASK == 0 && eam
            & WHITE_KINGSIDE_MASK_WITH_KING == 0 {
            base | (1u64 << 6)
        } else {
            base
        };
        if bit(castle_rooks, 0) && occ & WHITE_QUEENSIDE_MASK == 0 && eam
            & WHITE_QUEENSIDE_MASK_WITH_KING == 0 {
            m1 | (1u64 << 2)
        } else {
            m1
        }
    } else if turn && s == 60 {
        let m1 = if bit(castle_rooks, 63) && occ & BLACK_KINGSIDE_MASK == 0 && eam
            & BLACK_KINGSIDE_MASK_WITH_KING == 0 {
            base | (1u64 << 62)
        } else {
            base
        };
        if bit(castle_rooks, 56) && occ & BLACK_QUEENSIDE_MASK == 0 && eam
            & BLACK_QUEENSIDE_MASK_WITH_KING == 0 {
            m1 | (1u64 << 58)
        } else {
            m1
        }
    } else {
        base
    }
}

/// Reachable diagonal squares of a bishop or queen on `index`, first blocker
/// included.
pub fn generate_diagonal_moves(index: usize, occupied: u64, tables: &Tables) -> (moves: u64)
    requires
        index <= 64,
        tables.wf(),
    ensures
        moves == diagonal_moves_spec(index as int, occupied),
{
    let mut moves: u64 = 0;
    proof {
        lemma_or_basics(diagonal_dir_moves(0, index as int, occupied), 0, 0);
    }
    let mut direction: usize = 0;
    while direction < 4
        invariant
            index <= 64,
            tables.wf(),
            direction <= 4,
            moves == diagonal_moves_upto(direction as int, index as int, occupied),
        decreases 4 - direction,
    {
        let ray = tables.diagonal_rays[direction][index];
        let blockers = ray & occupied;

        let blocker_pos: usize = if blockers == 0 {
            64
        } else {
            proof {
                broadcast use vstd::std_specs::bits::axiom_u64_leading_zeros;
                broadcast use vstd::std_specs::bits::axiom_u64_trailing_zeros;

            }
            if direction == 0 || direction == 3 {
                blockers.trailing_zeros() as usize
            } else {
                63 - blockers.leading_zeros() as usize
            }
        };

        let cut = ray ^ tables.diagonal_rays[direction][blocker_pos];
        proof {
            if blockers == 0 {
                lemma_xor_zero(ray);
            }
        }
        moves = moves | cut;
        direction = direction + 1;
    }
    proof {
        lemma_moves_upto_4(index as int, occupied);
    }
    moves
}

/// `diagonal_moves_spec` restricted to the first `n` directions.
pub open spec fn diagonal_moves_upto(n: int, s: int, occ: u64) -> u64
    decreases n,
{
    if n <= 0 {
        0
    } else {
        diagonal_moves_upto(n - 1, s, occ) | diagonal_dir_moves(n - 1, s, occ)
    }
}

/// `straight_moves_spec` restricted to the first `n` directions.
pub open spec fn straight_moves_upto(n: int, s: int, occ: u64) -> u64
    decreases n,
{
    if n <= 0 {
        0
    } else {
        straight_moves_upto(n - 1, s, occ) | straight_dir_moves(n - 1, s, occ)
    }
}

/// The four partial unions agree with the four-way union.
pub proof fn lemma_moves_upto_4(s: int, occ: u64)
    ensures
        diagonal_moves_upto(4, s, occ) == diagonal_moves_spec(s, occ),
        straight_moves_upto(4, s, occ) == straight_moves_spec(s, occ),
{
    reveal_with_fuel(diagonal_moves_upto, 5);
    reveal_with_fuel(straight_moves_upto, 5);
    let d0 = diagonal_dir_moves(0, s, occ);
    let d1 = diagonal_dir_moves(1, s, occ);
    let d2 = diagonal_dir_moves(2, s, occ);
    let d3 = diagonal_dir_moves(3, s, occ);
    lemma_or_basics(d0, d1, d2);
    lemma_or_basics(0, d0, d1);
    let s0 = straight_dir_moves(0, s, occ);
    let s1 = straight_dir_moves(1, s, occ);
    let s2 = straight_dir_moves(2, s, occ);
    let s3 = straight_dir_moves(3, s, occ);
    lemma_or_basics(s0, s1, s2);
    lemma_or_basics(0, s0, s1);
}

/// Reachable orthogonal squares of a rook or queen on `index`, first blocker
/// included.
pub fn generate_straight_moves(index: usize, occupied: u64, tables: &Tables) -> (moves: u64)
    requires
        index <= 64,
        tables.wf(),
    ensures
        moves == straight_moves_spec(index as int, occupied),
{
    let mut moves: u64 = 0;
    let mut direction: usize = 0;
    while direction < 4
        invariant
            index <= 64,
            tables.wf(),
            direction <= 4,
            moves == straight_moves_upto(direction as int, index as int, occupied),
        decreases 4 - direction,
    {
        let ray = tables.straight_rays[direction][index];
        let blockers = ray & occupied;

        let blocker_pos: usize = if blockers == 0 {
            64
        } else {
            proof {
                broadcast use vstd::std_specs::bits::axiom_u64_leading_zeros;
                broadcast use vstd::std_specs::bits::axiom_u64_trailing_zeros;

            }
            if direction == 0 || direction == 1 {
                blockers.trailing_zeros() as usize
            } else {
                63 - blockers.leading_zeros() as usize
            }
        };

        let cut = ray ^ tables.straight_rays[direction][blocker_pos];
        proof {
            if blockers == 0 {
                lemma_xor_zero(ray);
            }
        }
        moves = moves | cut;
        direction = direction + 1;
    }
    proof {
        lemma_moves_upto_4(index as int, occupied);
    }
    moves
}

pub fn generate_knight_moves(index: usize, tables: &Tables) -> (moves: u64)
    requires
        index <= 64,
        tables.wf(),
    ensures
        moves == knight_jumps_spec(index as int),
{
    tables.knight_jumps[index]
}

pub fn generate_king_attacks(index: usize, tables: &Tables) -> (moves: u64)
    requires
        index <= 64,
        tables.wf(),
    ensures
        moves == king_attacks_spec(index as int),
{
    tables.king_attacks[index]
}

pub fn generate_pawn_attacks(index: usize, turn: bool, tables: &Tables) -> (moves: u64)
    requires
        index <= 64,
        tables.wf(),
    ensures
        moves == pawn_captures_spec(if turn { 1 } else { 0 }, index as int),
{
    if turn {
        tables.pawn_captures[1][index]
    } else {
        tables.pawn_captures[0][index]
    }
}

pub fn generate_pawn_moves(
    index: usize,
    occupied: u64,
    turn: usize,
    enemy_double_pawn_push: u64,
    tables: &Tables,
) -> (moves: u64)
    requires
        index < 64,
        turn < 2,
        tables.wf(),
    ensures
        moves == pawn_moves_spec(index as int, occupied, turn as int, enemy_double_pawn_push),
{
    let mut moves = tables.pawn_push[turn][index] & !occupied;

    let rank = index >> 3;
    assert(rank == index as int / 8) by (bit_vector)
        requires
            rank == index >> 3,
    ;

    if turn == 0 && rank == 1 {
        moves = moves | ((moves << 8) & !occupied);
    }
    if turn == 1 && rank == 6 {
        moves = moves | ((moves >> 8) & !occupied);
    }

    moves = moves | (tables.pawn_captures[turn][index] & (occupied | enemy_double_pawn_push));

    moves
}

pub fn generate_king_moves(
    index: usize,
    occupied: u64,
    castle_rooks: u64,
    turn: bool,
    enemy_attack_map: u64,
    tables: &Tables,
) -> (moves: u64)
    requires
        index <= 64,
        tables.wf(),
    ensures
        moves == king_moves_spec(index as int, occupied, castle_rooks, turn, enemy_attack_map),
{
    let mut moves = tables.king_attacks[index];

    if turn == false && index == WHITE_KING_START {
        if test_bit(castle_rooks, 7) && (occupied & WHITE_KINGSIDE_MASK == 0) && (enemy_attack_map
            & WHITE_KINGSIDE_MASK_WITH_KING) == 0 {
            moves = moves | (1u64 << 6);
        }
        if test_bit(castle_rooks, 0) && (occupied & WHITE_QUEENSIDE_MASK == 0) && (enemy_attack_map
            & WHITE_QUEENSIDE_MASK_WITH_KING) == 0 {
            moves = moves | (1u64 << 2);
        }
    }
    if turn == true && index == BLACK_KING_START {
        if test_bit(castle_rooks, 63) && (occupied & BLACK_KINGSIDE_MASK == 0) && (enemy_attack_map
            & BLACK_KINGSIDE_MASK_WITH_KING) == 0 {
            moves = moves | (1u64 << 62);
        }
        if test_bit(castle_rooks, 56) && (occupied & BLACK_QUEENSIDE_MASK == 0) && (enemy_attack_map
            & BLACK_QUEENSIDE_MASK_WITH_KING) == 0 {
            moves = moves | (1u64 << 58);
        }
    }

    moves
}

/// Which generator a piece bitboard is scanned with.
#[derive(Clone, Copy)]
pub enum GenKind {
    Diagonal,
    Straight,
    Knight,
    Pawn,
    King,
    PawnAttack,
    KingAttack,
}

/// The inputs the generators read besides the source square.
pub struct GenArgs {
    pub occupied: u64,
    pub turn: Player,
    pub enemy_double_push_pawns: u64,
    pub castle_rooks: u64,
    pub enemy_attack_map: u64,
}

/// The target bitboard of one piece of kind `kind` on square `s`.
pub open spec fn targets_spec(kind: GenKind, s: int, a: GenArgs) -> u64 {
    match kind {
        GenKind::Diagonal => diagonal_moves_spec(s, a.occupied),
        GenKind::Straight => straight_moves_spec(s, a.occupied),
        GenKind::Knight => knight_jumps_spec(s),
        GenKind::Pawn => pawn_moves_spec(
            s,
            a.occupied,
            a.turn.spec_index(),
            a.enemy_double_push_pawns,
        ),
        GenKind::King => king_moves_spec(
            s,
            a.occupied,
            a.castle_rooks,
            a.turn == Player::Black,
            a.enemy_attack_map,
        ),
        GenKind::PawnAttack => pawn_captures_spec(a.turn.spec_index(), s),
        GenKind::KingAttack => king_attacks_spec(s),
    }
}

pub fn gen_targets(kind: GenKind, index: usize, args: &GenArgs, tables: &Tables) -> (r: u64)
    requires
        index < 64,
        tables.wf(),
    ensures
        r == targets_spec(kind, index as int, *args),
{
    let black = match args.turn {
        Player::White => false,
        Player::Black => true,
    };
    match kind {
        GenKind::Diagonal => generate_diagonal_moves(index, args.occupied, tables),
        GenKind::Straight => generate_straight_moves(index, args.occupied, tables),
        GenKind::Knight => generate_knight_moves(index, tables),
        GenKind::Pawn => generate_pawn_moves(
            index,
            args.occupied,
            args.turn.table_index(),
            args.enemy_double_push_pawns,
            tables,
        ),
        GenKind::King => generate_king_moves(
            index,
            args.occupied,
            args.castle_rooks,
            black,
            args.enemy_attack_map,
            tables,
        ),
        GenKind::PawnAttack => generate_pawn_attacks(index, black, tables),
        GenKind::KingAttack => generate_king_attacks(index, tables),
    }
}

pub open spec fn sq_distance(a: int, b: int) -> int {
    if a >= b {
        a - b
    } else {
        b - a
    }
}

/// The encoded moves emitted for one (source, destination) pair. Mode 1
/// classifies pawn moves (four promotions on the back ranks, en passant on
/// an empty diagonal destination, tag 8 on a two-rank push); mode 2
/// classifies king moves (castle tags on the two-file slides); everything
/// else is a plain move.
pub open spec fn entries_for(src: int, dst: int, mode: u8, enemy_occupied: u64) -> Seq<u16> {
    let m = mv(src as u16, dst as u16);
    let distance = sq_distance(src, dst);
    if mode == 1 {
        if dst >= 56 || dst <= 7 {
            seq![
                m | (KNIGHT_PROMOTED << 12),
                m | (QUEEN_PROMOTED << 12),
                m | (BISHOP_PROMOTED << 12),
                m | (ROOK_PROMOTED << 12),
            ]
        } else if (distance == 7 || distance == 9) && !bit(enemy_occupied, dst as u64) {
            seq![m | (EN_PESSANT << 12)]
        } else if distance == 16 {
            seq![m | (DOUBLE_PAWN_PUSH << 12)]
        } else {
            seq![m]
        }
    } else if mode == 2 && distance >= 2 && dst / 8 == src / 8 {
        if dst == 6 || dst == 62 {
            seq![m | (CASTLE_KING << 12)]
        } else {
            seq![m | (CASTLE_QUEEN << 12)]
        }
    } else {
        seq![m]
    }
}

/// All moves emitted for the target bitboard `map` of a piece on `src`,
/// destinations in ascending square order.
pub open spec fn map_moves(src: int, map: u64, mode: u8, enemy_occupied: u64) -> Seq<u16>
    decreases map,
    via map_moves_decreases
{
    if map == 0 {
        Seq::empty()
    } else {
        let d = u64_trailing_zeros(map) as int;
        entries_for(src, d, mode, enemy_occupied) + map_moves(
            src,
            clear_b(map, d as u64),
            mode,
            enemy_occupied,
        )
    }
}

#[via_fn]
proof fn map_moves_decreases(src: int, map: u64, mode: u8, enemy_occupied: u64) {
    if map != 0 {
        lemma_lsb_nonzero(map);
        lemma_clear_set_bit_shrinks(map, u64_trailing_zeros(map) as u64);
    }
}

/// Drain `moves_for_piece`, appending one encoded move (or promotion
/// quartet) per set destination bit. `piece_set` is the opposing side, read
/// only for the en-passant emptiness test.
pub fn iterate_move_map(
    piece_set: &PieceSet,
    src_index: usize,
    moves_for_piece: &mut u64,
    mode: u8,
    moves: &mut Vec<u16>,
)
    requires
        src_index < 64,
    ensures
        final(moves)@ == old(moves)@ + map_moves(
            src_index as int,
            *old(moves_for_piece),
            mode,
            piece_set.occupied,
        ),
        *final(moves_for_piece) == 0,
{
    loop
        invariant
            src_index < 64,
            moves@ + map_moves(src_index as int, *moves_for_piece, mode, piece_set.occupied)
                == old(moves)@ + map_moves(
                src_index as int,
                *old(moves_for_piece),
                mode,
                piece_set.occupied,
            ),
        ensures
            *moves_for_piece == 0,
            moves@ == old(moves)@ + map_moves(
                src_index as int,
                *old(moves_for_piece),
                mode,
                piece_set.occupied,
            ),
        decreases *moves_for_piece,
    {
        let ghost prev_map = *moves_for_piece;
        let ghost prev_moves = moves@;
        let dis_index = get_lsb(*moves_for_piece);
        if dis_index == 64 {
            proof {
                broadcast use vstd::std_specs::bits::axiom_u64_trailing_zeros;

                assert(*moves_for_piece == 0);
                assert(moves@ + map_moves(
                    src_index as int,
                    *moves_for_piece,
                    mode,
                    piece_set.occupied,
                ) =~= moves@);
            }
            break;
        }
        proof {
            lemma_lsb_nonzero(*moves_for_piece);
        }

        let mov: u16 = (src_index as u16) | ((dis_index as u16) << 6);
        let distance = if src_index >= dis_index {
            src_index - dis_index
        } else {
            dis_index - src_index
        };

        if mode == 1 {
            if dis_index >= 56 || dis_index <= 7 {
                moves.push(mov | (KNIGHT_PROMOTED << 12));
                moves.push(mov | (QUEEN_PROMOTED << 12));
                moves.push(mov | (BISHOP_PROMOTED << 12));
                moves.push(mov | (ROOK_PROMOTED << 12));
            } else if (distance == 7 || distance == 9) && !test_bit(
                piece_set.occupied,
                dis_index,
            ) {
                moves.push(mov | (EN_PESSANT << 12));
            } else if distance == 16 {
                moves.push(mov | (DOUBLE_PAWN_PUSH << 12));
            } else {
                moves.push(mov);
            }
        } else if mode == 2 && distance >= 2 && dis_index >> 3 == src_index >> 3 {
            if dis_index == 6 || dis_index == 62 {
                moves.push(mov | (CASTLE_KING << 12));
            } else {
                moves.push(mov | (CASTLE_QUEEN << 12));
            }
        } else {
            moves.push(mov);
        }

        flip_bit(moves_for_piece, dis_index);

        proof {
            lemma_clear_set_bit_shrinks(prev_map, dis_index as u64);
            assert(dis_index >> 3 == dis_index / 8 && src_index >> 3 == src_index / 8)
                by (bit_vector)
                requires
                    src_index < 64,
                    dis_index < 64,
            ;
            assert(moves@ =~= prev_moves + entries_for(
                src_index as int,
                dis_index as int,
                mode,
                piece_set.occupied,
            ));
            assert(moves@ + map_moves(src_index as int, *moves_for_piece, mode, piece_set.occupied)
                =~= prev_moves + map_moves(src_index as int, prev_map, mode, piece_set.occupied));
        }
    }
}

/// All moves of the pieces in `map`, sources in ascending square order; each
/// piece's targets are its generated map masked off the allied occupancy.
pub open spec fn positions_moves(
    map: u64,
    kind: GenKind,
    a: GenArgs,
    ally_occupied: u64,
    enemy_occupied: u64,
    mode: u8,
) -> Seq<u16>
    decreases map,
    via positions_moves_decreases
{
    if map == 0 {
        Seq::empty()
    } else {
        let s = u64_trailing_zeros(map) as int;
        map_moves(s, targets_spec(kind, s, a) & !ally_occupied, mode, enemy_occupied)
            + positions_moves(clear_b(map, s as u64), kind, a, ally_occupied, enemy_occupied, mode)
    }
}

#[via_fn]
proof fn positions_moves_decreases(
    map: u64,
    kind: GenKind,
    a: GenArgs,
    ally_occupied: u64,
    enemy_occupied: u64,
    mode: u8,
) {
    if map != 0 {
        lemma_lsb_nonzero(map);
        lemma_clear_set_bit_shrinks(map, u64_trailing_zeros(map) as u64);
    }
}

/// For each piece in `piece_positions`, generate its targets with `kind`,
/// mask off allied squares, and append the encoded moves.
pub fn iterate_possible_move(
    piece_positions: u64,
    ally: &PieceSet,
    enemy: &PieceSet,
    mode: u8,
    kind: GenKind,
    args: &GenArgs,
    tables: &Tables,
    moves: &mut Vec<u16>,
)
    requires
        tables.wf(),
    ensures
        final(moves)@ == old(moves)@ + positions_moves(
            piece_positions,
            kind,
            *args,
            ally.occupied,
            enemy.occupied,
            mode,
        ),
{
    let mut remaining = piece_positions;
    loop
        invariant
            tables.wf(),
            moves@ + positions_moves(remaining, kind, *args, ally.occupied, enemy.occupied, mode)
                == old(moves)@ + positions_moves(
                piece_positions,
                kind,
                *args,
                ally.occupied,
                enemy.occupied,
                mode,
            ),
        ensures
            moves@ == old(moves)@ + positions_moves(
                piece_positions,
                kind,
                *args,
                ally.occupied,
                enemy.occupied,
                mode,
            ),
        decreases remaining,
    {
        let ghost prev_map = remaining;
        let ghost prev_moves = moves@;
        let index = get_lsb(remaining);
        if index == 64 {
            proof {
                broadcast use vstd::std_specs::bits::axiom_u64_trailing_zeros;

                assert(remaining == 0);
                assert(moves@ + positions_moves(
                    remaining,
                    kind,
                    *args,
                    ally.occupied,
                    enemy.occupied,
                    mode,
                ) =~= moves@);
            }
            break;
        }
        proof {
            lemma_lsb_nonzero(remaining);
        }

        let mut moves_for_piece = gen_targets(kind, index, args, tables) & !ally.occupied;
        iterate_move_map(enemy, index, &mut moves_for_piece, mode, moves);

        flip_bit(&mut remaining, index);

        proof {
            lemma_clear_set_bit_shrinks(prev_map, index as u64);
            assert(moves@ + positions_moves(
                remaining,
                kind,
                *args,
                ally.occupied,
                enemy.occupied,
                mode,
            ) =~= prev_moves + positions_moves(
                prev_map,
                kind,
                *args,
                ally.occupied,
                enemy.occupied,
                mode,
            ));
        }
    }
}

/// The union of the targets of every piece in `map`.
pub open spec fn attacks_union(map: u64, kind: GenKind, a: GenArgs) -> u64
    decreases map,
    via attacks_union_decreases
{
    if map == 0 {
        0
    } else {
        let s = u64_trailing_zeros(map) as int;
        targets_spec(kind, s, a) | attacks_union(clear_b(map, s as u64), kind, a)
    }
}

#[via_fn]
proof fn attacks_union_decreases(map: u64, kind: GenKind, a: GenArgs) {
    if map != 0 {
        lemma_lsb_nonzero(map);
        lemma_clear_set_bit_shrinks(map, u64_trailing_zeros(map) as u64);
    }
}

/// Union the targets of every piece in `piece_positions`.
pub fn iterate_attack_moves(piece_positions: u64, kind: GenKind, args: &GenArgs, tables: &Tables) -> (attacks:
    u64)
    requires
        tables.wf(),
    ensures
        attacks == attacks_union(piece_positions, kind, *args),
{
    let mut attacks: u64 = 0;
    let mut remaining = piece_positions;
    proof {
        lemma_or_basics(attacks_union(piece_positions, kind, *args), 0, 0);
    }
    loop
        invariant
            tables.wf(),
            attacks | attacks_union(remaining, kind, *args) == attacks_union(
                piece_positions,
                kind,
                *args,
            ),
        ensures
            attacks == attacks_union(piece_positions, kind, *args),
        decreases remaining,
    {
        let ghost prev_map = remaining;
        let index = get_lsb(remaining);
        if index == 64 {
            proof {
                broadcast use vstd::std_specs::bits::axiom_u64_trailing_zeros;

                assert(remaining == 0);
                lemma_or_basics(attacks, 0, 0);
            }
            break;
        }
        proof {
            lemma_lsb_nonzero(remaining);
        }

        let t = gen_targets(kind, index, args, tables);
        proof {
            lemma_clear_set_bit_shrinks(remaining, index as u64);
            lemma_or_basics(attacks, t, attacks_union(clear_b(remaining, index as u64), kind, *args));
        }
        attacks = attacks | t;
        flip_bit(&mut remaining, index);
    }
    attacks
}

/// The fields of an encoded move, bare or tagged.
pub proof fn lemma_enc_fields(s: u16, d: u16, t: u16)
    by (bit_vector)
    requires
        s < 64,
        d < 64,
        t < 16,
    ensures
        ((s | (d << 6)) | (t << 12)) & 0x3F == s,
        (((s | (d << 6)) | (t << 12)) >> 6) & 0x3F == d,
        ((s | (d << 6)) | (t << 12)) >> 12 == t,
        (s | (d << 6)) & 0x3F == s,
        ((s | (d << 6)) >> 6) & 0x3F == d,
        (s | (d << 6)) >> 12 == 0,
{
}

/// The tag an emitted move carries, as `iterate_move_map` classifies its
/// squares: promotion tags on the back ranks, the en-passant tag on an
/// empty diagonal destination, tag 8 on a two-rank push, castle tags on
/// the two-file king slides, and tag 0 otherwise.
pub open spec fn emitted_tag_ok(src: int, dst: int, mode: u8, enemy_occupied: u64, m: u16) -> bool {
    let distance = sq_distance(src, dst);
    if mode == 1 {
        if dst >= 56 || dst <= 7 {
            1 <= mv_tag(m) <= 4
        } else if (distance == 7 || distance == 9) && !bit(enemy_occupied, dst as u64) {
            mv_tag(m) == 5
        } else if distance == 16 {
            mv_tag(m) == 8
        } else {
            mv_tag(m) == 0
        }
    } else if mode == 2 && distance >= 2 && dst / 8 == src / 8 {
        if dst == 6 || dst == 62 {
            mv_tag(m) == 6
        } else {
            mv_tag(m) == 7
        }
    } else {
        mv_tag(m) == 0
    }
}

/// Every move emitted for one piece's target map names that piece's square
/// as source, a destination drawn from the map, and the tag its squares
/// call for.
pub proof fn lemma_map_moves_elem(src: int, map: u64, mode: u8, enemy_occupied: u64, k: int)
    requires
        0 <= src < 64,
        0 <= k < map_moves(src, map, mode, enemy_occupied).len(),
    ensures
        ({
            let m = map_moves(src, map, mode, enemy_occupied)[k];
            &&& mv_src(m) == src
            &&& 0 <= mv_dst(m) < 64
            &&& bit(map, mv_dst(m) as u64)
            &&& emitted_tag_ok(src, mv_dst(m), mode, enemy_occupied, m)
        }),
    decreases map,
{
    broadcast use vstd::std_specs::bits::axiom_u64_trailing_zeros;

    lemma_lsb_nonzero(map);
    lemma_clear_set_bit_shrinks(map, u64_trailing_zeros(map) as u64);
    let dt = u64_trailing_zeros(map) as u64;
    let d = dt as int;
    let head = entries_for(src, d, mode, enemy_occupied);
    let tail = map_moves(src, clear_b(map, dt), mode, enemy_occupied);
    if k < head.len() {
        let m = head[k];
        lemma_enc_fields(src as u16, d as u16, 1);
        lemma_enc_fields(src as u16, d as u16, 2);
        lemma_enc_fields(src as u16, d as u16, 3);
        lemma_enc_fields(src as u16, d as u16, 4);
        lemma_enc_fields(src as u16, d as u16, 5);
        lemma_enc_fields(src as u16, d as u16, 6);
        lemma_enc_fields(src as u16, d as u16, 7);
        lemma_enc_fields(src as u16, d as u16, 8);
        assert(map_moves(src, map, mode, enemy_occupied)[k] == m);
    } else {
        lemma_map_moves_elem(src, clear_b(map, dt), mode, enemy_occupied, k - head.len());
        let m = tail[k - head.len()];
        lemma_clear_b_bit(map, dt, mv_dst(m) as u64);
        assert(map_moves(src, map, mode, enemy_occupied)[k] == m);
    }
}

/// Every move emitted for a piece bitboard names a source square drawn
/// from the bitboard, a destination in that piece's generated targets and
/// off the allied occupancy, and the tag its squares call for.
pub proof fn lemma_positions_moves_elem(
    map: u64,
    kind: GenKind,
    a: GenArgs,
    ally_occupied: u64,
    enemy_occupied: u64,
    mode: u8,
    k: int,
)
    requires
        0 <= k < positions_moves(map, kind, a, ally_occupied, enemy_occupied, mode).len(),
    ensures
        ({
            let m = positions_moves(map, kind, a, ally_occupied, enemy_occupied, mode)[k];
            &&& 0 <= mv_src(m) < 64
            &&& 0 <= mv_dst(m) < 64
            &&& bit(map, mv_src(m) as u64)
            &&& bit(targets_spec(kind, mv_src(m), a), mv_dst(m) as u64)
            &&& !bit(ally_occupied, mv_dst(m) as u64)
            &&& emitted_tag_ok(mv_src(m), mv_dst(m), mode, enemy_occupied, m)
        }),
    decreases map,
{
    broadcast use vstd::std_specs::bits::axiom_u64_trailing_zeros;

    lemma_lsb_nonzero(map);
    lemma_clear_set_bit_shrinks(map, u64_trailing_zeros(map) as u64);
    let st = u64_trailing_zeros(map) as u64;
    let s = st as int;
    let head = map_moves(s, targets_spec(kind, s, a) & !ally_occupied, mode, enemy_occupied);
    if k < head.len() {
        lemma_map_moves_elem(s, targets_spec(kind, s, a) & !ally_occupied, mode, enemy_occupied, k);
        let m = head[k];
        crate::utils::lemma_or2_bit(targets_spec(kind, s, a), ally_occupied, mv_dst(m) as u64);
        assert(positions_moves(map, kind, a, ally_occupied, enemy_occupied, mode)[k] == m);
    } else {
        lemma_positions_moves_elem(
            clear_b(map, st),
            kind,
            a,
            ally_occupied,
            enemy_occupied,
            mode,
            k - head.len(),
        );
        let m = positions_moves(clear_b(map, st), kind, a, ally_occupied, enemy_occupied, mode)[k
            - head.len()];
        lemma_clear_b_bit(map, st, mv_src(m) as u64);
        assert(positions_moves(map, kind, a, ally_occupied, enemy_occupied, mode)[k] == m);
    }
}

/// What a pawn target square can be: the single push one rank ahead onto
/// an empty square, the double push two ranks ahead from the home rank,
/// or a forward diagonal capture onto an occupied or en-passant-marked
/// square.
pub proof fn lemma_pawn_target_structure(s: int, occ: u64, c: int, enemy_dpp: u64, d: u64)
    requires
        0 <= s < 64,
        d < 64,
        c == 0 || c == 1,
        bit(pawn_moves_spec(s, occ, c, enemy_dpp), d),
    ensures
        c == 0 ==> {
            ||| (d == s + 8 && !bit(occ, d))
            ||| (s / 8 == 1 && d == s + 16 && !bit(occ, d))
            ||| (((d == s + 7 && s % 8 != 0) || (d == s + 9 && s % 8 != 7)) && 8 <= s < 56 && (
                bit(occ, d) || bit(enemy_dpp, d)))
        },
        c == 1 ==> {
            ||| (d == s - 8 && !bit(occ, d))
            ||| (s / 8 == 6 && d == s - 16 && !bit(occ, d))
            ||| (((d == s - 9 && s % 8 != 0) || (d == s - 7 && s % 8 != 7)) && 8 <= s < 56 && (
                bit(occ, d) || bit(enemy_dpp, d)))
        },
{
    let pp = pawn_push_spec(c, s);
    let push = pp & !occ;
    let pc = pawn_captures_spec(c, s);
    let with_double = if c == 0 && s / 8 == 1 {
        push | ((push << 8) & !occ)
    } else if c == 1 && s / 8 == 6 {
        push | ((push >> 8) & !occ)
    } else {
        push
    };
    crate::utils::lemma_zero_and();
    crate::utils::lemma_or2_bit(with_double, pc & (occ | enemy_dpp), d);
    let j: u64 = if c == 0 {
        ((s + 8) as u64)
    } else {
        ((s - 8) as u64)
    };
    proof_pp_sub(pp, c, s, j);
    if bit(with_double, d) {
        if c == 0 && s / 8 == 1 {
            crate::utils::lemma_or2_bit(push, (push << 8) & !occ, d);
        } else if c == 1 && s / 8 == 6 {
            crate::utils::lemma_or2_bit(push, (push >> 8) & !occ, d);
        }
        if bit(push, d) {
            crate::utils::lemma_or2_bit(pp, occ, d);
            crate::utils::lemma_single_sub_bit(pp, j, d);
            assert(bit(pp, d) && !bit(occ, d));
            assert(d == j);
        } else {
            crate::utils::lemma_and_sub(pp, occ, 1u64 << j);
            crate::utils::lemma_single_sub_bit(push, j, d);
            if c == 0 {
                crate::utils::lemma_or2_bit(push << 8, occ, d);
                crate::utils::lemma_single_sub_bit(push << 8, ((j + 8) as u64), d);
            } else {
                crate::utils::lemma_or2_bit(push >> 8, occ, d);
                crate::utils::lemma_single_sub_bit(push >> 8, ((j - 8) as u64), d);
            }
        }
    } else {
        crate::utils::lemma_or2_bit(pc, occ | enemy_dpp, d);
        crate::utils::lemma_or2_bit(occ, enemy_dpp, d);
        if 8 <= s < 56 {
            if c == 0 {
                let lo = if s % 8 != 0 {
                    1u64 << ((s + 7) as u64)
                } else {
                    0u64
                };
                let hi = if s % 8 != 7 {
                    1u64 << ((s + 9) as u64)
                } else {
                    0u64
                };
                crate::utils::lemma_or2_bit(lo, hi, d);
                if s % 8 != 0 {
                    crate::utils::lemma_single_bit_eq(((s + 7) as u64), d);
                }
                if s % 8 != 7 {
                    crate::utils::lemma_single_bit_eq(((s + 9) as u64), d);
                }
            } else {
                let lo = if s % 8 != 0 {
                    1u64 << ((s - 9) as u64)
                } else {
                    0u64
                };
                let hi = if s % 8 != 7 {
                    1u64 << ((s - 7) as u64)
                } else {
                    0u64
                };
                crate::utils::lemma_or2_bit(lo, hi, d);
                if s % 8 != 0 {
                    crate::utils::lemma_single_bit_eq(((s - 9) as u64), d);
                }
                if s % 8 != 7 {
                    crate::utils::lemma_single_bit_eq(((s - 7) as u64), d);
                }
            }
        }
    }
}

/// The pawn push table holds at most the single square ahead.
proof fn proof_pp_sub(pp: u64, c: int, s: int, j: u64)
    requires
        0 <= s < 64,
        c == 0 || c == 1,
        pp == pawn_push_spec(c, s),
        j == (if c == 0 {
            ((s + 8) as u64)
        } else {
            ((s - 8) as u64)
        }),
    ensures
        pp & !(1u64 << j) == 0,
{
    crate::utils::lemma_zero_and();
    if 8 <= s < 56 {
        crate::utils::lemma_single_sub_bit(pp, j, 0);
    } else {
        assert(pp == 0);
        assert(0u64 & !(1u64 << j) == 0);
    }
}

/// Integer coordinates of a square index.
proof fn lemma_sq_coords(x: int, y: int)
    by (nonlinear_arith)
    requires
        0 <= y < 8,
    ensures
        (x * 8 + y) / 8 == x,
        (x * 8 + y) % 8 == y,
{
}

/// A king step stays within one file and one rank: on the king's own rank
/// it can only reach the two adjacent squares.
pub proof fn lemma_king_attacks_same_rank(s: int, d: u64)
    requires
        0 <= s < 64,
        d < 64,
        bit(king_attacks_spec(s), d),
    ensures
        d as int / 8 == s / 8 ==> sq_distance(s, d as int) <= 1,
{
    crate::utils::lemma_zero_and();
    let f = s % 8;
    let r = s / 8;
    let t1 = crate::attack_maps::jump_bit(f, r, 1, 1);
    let t2 = crate::attack_maps::jump_bit(f, r, 0, 1);
    let t3 = crate::attack_maps::jump_bit(f, r, -1, 1);
    let t4 = crate::attack_maps::jump_bit(f, r, 1, 0);
    let t5 = crate::attack_maps::jump_bit(f, r, -1, 0);
    let t6 = crate::attack_maps::jump_bit(f, r, 1, -1);
    let t7 = crate::attack_maps::jump_bit(f, r, 0, -1);
    let t8 = crate::attack_maps::jump_bit(f, r, -1, -1);
    crate::utils::lemma_or2_bit(t1 | t2 | t3 | t4 | t5 | t6 | t7, t8, d);
    crate::utils::lemma_or2_bit(t1 | t2 | t3 | t4 | t5 | t6, t7, d);
    crate::utils::lemma_or2_bit(t1 | t2 | t3 | t4 | t5, t6, d);
    crate::utils::lemma_or2_bit(t1 | t2 | t3 | t4, t5, d);
    crate::utils::lemma_or2_bit(t1 | t2 | t3, t4, d);
    crate::utils::lemma_or2_bit(t1 | t2, t3, d);
    crate::utils::lemma_or2_bit(t1, t2, d);
    if d as int / 8 == s / 8 {
        assert forall|df: int, dr: int|
            -1 <= df <= 1 && -1 <= dr <= 1 && !(df == 0 && dr == 0) && bit(
                crate::attack_maps::jump_bit(f, r, df, dr),
                d,
            ) implies sq_distance(s, d as int) <= 1 by {
            if crate::attack_maps::on_board(f + df, r + dr) {
                let sq2 = (r + dr) * 8 + (f + df);
                crate::utils::lemma_single_bit_eq((sq2 as u64), d);
                assert(d == sq2);
                lemma_sq_coords(r + dr, f + df);
                lemma_sq_coords(r, f);
                assert(d as int / 8 == r + dr);
                assert(dr == 0);
            }
        }
    }
}

} // verus!
