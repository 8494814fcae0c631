//! The position: one piece set per side and the side to move.

use vstd::prelude::*;

pub use crate::engine::MoveResult;
pub use crate::engine::PieceType;

verus! {

use crate::engine::apply_castle_move;
use crate::engine::apply_double_pawn_push;
use crate::engine::apply_enpessant;
use crate::engine::apply_normal_move;
use crate::engine::apply_promotion;
use crate::engine::castle_applied;
use crate::engine::castle_unapplied;
use crate::engine::dpp_applied;
use crate::engine::dpp_unapplied;
use crate::engine::ep_applied;
use crate::engine::ep_unapplied;
use crate::engine::castle_pre;
use crate::engine::dpp_pre;
use crate::engine::ep_pre;
use crate::engine::has_piece;
use crate::engine::normal_pre;
use crate::engine::promotion_pre;
use crate::engine::normal_applied;
use crate::engine::normal_undo;
use crate::engine::normal_unapplied;
use crate::engine::piece_kind_at;
use crate::engine::promo_kind;
use crate::engine::promotion_applied;
use crate::engine::promotion_unapplied;
use crate::engine::unapply_castle_move;
use crate::engine::unapply_double_pawn_push;
use crate::engine::unapply_normal_move;
use crate::engine::unapply_promotion;
use crate::engine::unpply_enpessant;
use crate::move_generator::mv_dst;
use crate::move_generator::mv_src;
use crate::move_generator::mv_tag;
use crate::attack_maps::diagonal_ray;
use crate::attack_maps::king_attacks_spec;
use crate::attack_maps::knight_jumps_spec;
use crate::attack_maps::straight_ray;
use crate::move_generator::attacks_union;
use crate::move_generator::diagonal_moves_spec;
use crate::move_generator::generate_diagonal_moves;
use crate::move_generator::generate_king_attacks;
use crate::move_generator::generate_knight_moves;
use crate::move_generator::generate_straight_moves;
use crate::move_generator::iterate_attack_moves;
use crate::move_generator::iterate_possible_move;
use crate::move_generator::king_moves_spec;
use crate::move_generator::lemma_positions_moves_elem;
use crate::move_generator::positions_moves;
use crate::move_generator::straight_moves_spec;
use crate::move_generator::GenArgs;
use crate::move_generator::GenKind;
use crate::piece_set::PieceSet;
use crate::player::Player;
use crate::utils::bit;
use crate::utils::flip_bit;
use crate::utils::get_lsb;
use crate::utils::lemma_clear_b_bit;
use crate::utils::lemma_clear_set_bit_shrinks;
use crate::utils::lemma_lsb_nonzero;
use crate::utils::lemma_or_basics;
use crate::utils::test_bit;
use vstd::std_specs::bits::u64_trailing_zeros;

#[derive(Clone)]
#[verifier::ext_equal]
pub struct BitBoard {
    pub black_set: PieceSet,
    pub white_set: PieceSet,
    pub player: Player,
}

impl BitBoard {
    /// Both sides satisfy the piece-set invariant.
    pub open spec fn wf(self) -> bool {
        self.white_set.wf() && self.black_set.wf()
    }

    /// Equality on the persistent fields only: the nine bitboards per side
    /// and the side to move; the derived attack maps are excluded.
    pub open spec fn persistent_eq(self, other: BitBoard) -> bool {
        &&& self.white_set.persistent_eq(other.white_set)
        &&& self.black_set.persistent_eq(other.black_set)
        &&& self.player == other.player
    }

    /// The piece set of the side `turn`.
    pub open spec fn ally(self, turn: Player) -> PieceSet {
        if turn == Player::White {
            self.white_set
        } else {
            self.black_set
        }
    }

    /// The piece set of the side opposing `turn`.
    pub open spec fn enemy(self, turn: Player) -> PieceSet {
        if turn == Player::White {
            self.black_set
        } else {
            self.white_set
        }
    }

    /// The board with `turn`'s set replaced by `a` and the opposing set by
    /// `e`.
    pub open spec fn with_sets(self, turn: Player, a: PieceSet, e: PieceSet) -> BitBoard {
        if turn == Player::White {
            BitBoard { white_set: a, black_set: e, ..self }
        } else {
            BitBoard { white_set: e, black_set: a, ..self }
        }
    }

    pub open spec fn spec_empty() -> BitBoard {
        BitBoard {
            white_set: PieceSet::spec_empty(),
            black_set: PieceSet::spec_empty(),
            player: Player::White,
        }
    }

    pub open spec fn spec_starting() -> BitBoard {
        BitBoard {
            white_set: PieceSet::spec_starting_white(),
            black_set: PieceSet::spec_starting_black(),
            player: Player::White,
        }
    }

    pub fn get_empty_board() -> (board: BitBoard)
        ensures
            board == BitBoard::spec_empty(),
            board.wf(),
    {
        let board: BitBoard = BitBoard {
            white_set: PieceSet::get_empty_piece_set(),
            black_set: PieceSet::get_empty_piece_set(),
            player: Player::White,
        };
        board
    }

    pub fn get_starting_board() -> (board: BitBoard)
        ensures
            board == BitBoard::spec_starting(),
            board.wf(),
    {
        BitBoard {
            white_set: PieceSet::get_starting_white_set(),
            black_set: PieceSet::get_starting_black_set(),
            player: Player::White,
        }
    }
}

/// What a move's application needs of the position so that no bit index
/// leaves the board: a mover on the source square for a tag-0 move, a king
/// with room toward the right corner for a castle, and in-range destination
/// ranks for the pawn specials.
pub open spec fn move_ok(b: BitBoard, turn: Player, mov: u16) -> bool {
    let a = b.ally(turn);
    let tag = mv_tag(mov);
    if 1 <= tag <= 4 {
        true
    } else if tag == 5 || tag == 8 {
        if turn == Player::White {
            mv_dst(mov) >= 8
        } else {
            mv_dst(mov) < 56
        }
    } else if tag == 6 || tag == 7 {
        a.kings != 0 && (tag == 6 ==> u64_trailing_zeros(a.kings) + 3 < 64) && (tag == 7
            ==> u64_trailing_zeros(a.kings) >= 4)
    } else {
        has_piece(a, mv_src(mov) as u64)
    }
}

/// The position after applying `mov` for `turn`, by the mover's tag group.
pub open spec fn apply_move_spec(b: BitBoard, turn: Player, mov: u16) -> BitBoard {
    let a = b.ally(turn);
    let e = b.enemy(turn);
    let tag = mv_tag(mov);
    if 1 <= tag <= 4 {
        b.with_sets(turn, promotion_applied(a, e, mov).0, promotion_applied(a, e, mov).1)
    } else if tag == 5 {
        b.with_sets(
            turn,
            ep_applied(a, e, mov, turn == Player::White).0,
            ep_applied(a, e, mov, turn == Player::White).1,
        )
    } else if tag == 6 || tag == 7 {
        b.with_sets(turn, castle_applied(a, e, tag == 6).0, castle_applied(a, e, tag == 6).1)
    } else if tag == 8 {
        b.with_sets(
            turn,
            dpp_applied(a, e, mov, turn == Player::White).0,
            dpp_applied(a, e, mov, turn == Player::White).1,
        )
    } else {
        b.with_sets(turn, normal_applied(a, e, mov).0, normal_applied(a, e, mov).1)
    }
}

/// The undo snapshot `apply_move` returns for `mov`.
pub open spec fn apply_move_undo(b: BitBoard, turn: Player, mov: u16) -> MoveResult {
    let a = b.ally(turn);
    let e = b.enemy(turn);
    let tag = mv_tag(mov);
    if 1 <= tag <= 4 {
        MoveResult::Promotions(
            promo_kind(tag),
            piece_kind_at(e, mv_dst(mov) as u64),
            e.castle_rooks,
            e.double_push_pawns,
        )
    } else if tag == 5 {
        MoveResult::Enpassant(e.double_push_pawns, 0)
    } else if tag == 6 || tag == 7 {
        MoveResult::Castle(a.castle_rooks, e.double_push_pawns)
    } else if tag == 8 {
        MoveResult::DoublePawnPush(e.double_push_pawns)
    } else {
        MoveResult::NormalMove(
            normal_undo(a, e, mov).0,
            normal_undo(a, e, mov).1,
            normal_undo(a, e, mov).2,
            normal_undo(a, e, mov).3,
            normal_undo(a, e, mov).4,
        )
    }
}

/// What reversing `mov` with snapshot `r` needs: the snapshot variant of the
/// move's tag group, and for a castle a king already standing on the castled
/// square.
pub open spec fn unapply_ok(b: BitBoard, turn: Player, mov: u16, r: MoveResult) -> bool {
    let a = b.ally(turn);
    let tag = mv_tag(mov);
    if 1 <= tag <= 4 {
        r is Promotions
    } else if tag == 5 {
        (r is Enpassant) && (if turn == Player::White {
            mv_dst(mov) >= 8
        } else {
            mv_dst(mov) < 56
        })
    } else if tag == 6 || tag == 7 {
        (r is Castle) && a.kings != 0 && (tag == 6 ==> u64_trailing_zeros(a.kings) >= 2
            && u64_trailing_zeros(a.kings) + 1 < 64) && (tag == 7 ==> u64_trailing_zeros(a.kings)
            >= 2 && u64_trailing_zeros(a.kings) + 2 < 64)
    } else if tag == 8 {
        r is DoublePawnPush
    } else {
        r is NormalMove
    }
}

/// The position after reversing `mov` with snapshot `r`.
pub open spec fn unapply_move_spec(b: BitBoard, turn: Player, mov: u16, r: MoveResult) -> BitBoard {
    let a = b.ally(turn);
    let e = b.enemy(turn);
    let tag = mv_tag(mov);
    match r {
        MoveResult::Promotions(pt, dt, er, ed) => b.with_sets(
            turn,
            promotion_unapplied(a, e, mov, pt, dt, er, ed).0,
            promotion_unapplied(a, e, mov, pt, dt, er, ed).1,
        ),
        MoveResult::Enpassant(ed, _u) => b.with_sets(
            turn,
            ep_unapplied(a, e, mov, turn == Player::White, ed).0,
            ep_unapplied(a, e, mov, turn == Player::White, ed).1,
        ),
        MoveResult::Castle(cr, ed) => b.with_sets(
            turn,
            castle_unapplied(a, e, tag == 6, cr, ed).0,
            castle_unapplied(a, e, tag == 6, cr, ed).1,
        ),
        MoveResult::DoublePawnPush(ed) => b.with_sets(
            turn,
            dpp_unapplied(a, e, mov, ed).0,
            dpp_unapplied(a, e, mov, ed).1,
        ),
        MoveResult::NormalMove(st, dt, ar, er, ed) => b.with_sets(
            turn,
            normal_unapplied(a, e, mov, st, dt, ar, er, ed).0,
            normal_unapplied(a, e, mov, st, dt, ar, er, ed).1,
        ),
    }
}

impl BitBoard {
    /// Apply `mov` for `turn`, returning the snapshot that reverses it.
    /// Side-to-move is not touched; the caller flips it after a legal move.
    pub fn apply_move(&mut self, turn: Player, mov: u16) -> (r: MoveResult)
        requires
            move_ok(*old(self), turn, mov),
        ensures
            *final(self) == apply_move_spec(*old(self), turn, mov),
            r == apply_move_undo(*old(self), turn, mov),
    {
        proof {
            crate::move_generator::lemma_mv_bounds(mov);
        }
        let tag = mov >> 12;
        if tag >= 1 && tag <= 4 {
            let (promoted_piece_type, dest_piece_type, enemy_rooks, enemy_double_pawn_push) =
                apply_promotion(self, turn, mov);
            MoveResult::Promotions(
                promoted_piece_type,
                dest_piece_type,
                enemy_rooks,
                enemy_double_pawn_push,
            )
        } else if tag == 5 {
            let (enemy_double_push_pawn, z) = apply_enpessant(self, turn, mov);
            MoveResult::Enpassant(enemy_double_push_pawn, z)
        } else if tag == 6 || tag == 7 {
            let (castle_rooks, enemy_double_pawn_push) = apply_castle_move(self, turn, mov);
            MoveResult::Castle(castle_rooks, enemy_double_pawn_push)
        } else if tag == 8 {
            let enemy_double_pawn_push = apply_double_pawn_push(self, turn, mov);
            MoveResult::DoublePawnPush(enemy_double_pawn_push)
        } else {
            let (src_piece_type, dest_piece_type, castle_rooks, enemy_rooks, enemy_double_pawn_push)
                = apply_normal_move(self, turn, mov);
            MoveResult::NormalMove(
                src_piece_type,
                dest_piece_type,
                castle_rooks,
                enemy_rooks,
                enemy_double_pawn_push,
            )
        }
    }

    /// Reverse `mov` using the snapshot `apply_move` returned for it.
    pub fn unapply_move(&mut self, turn: Player, mov: u16, mov_result: MoveResult)
        requires
            unapply_ok(*old(self), turn, mov, mov_result),
        ensures
            *final(self) == unapply_move_spec(*old(self), turn, mov, mov_result),
    {
        proof {
            crate::move_generator::lemma_mv_bounds(mov);
        }
        let tag = mov >> 12;
        if tag >= 1 && tag <= 4 {
            if let MoveResult::Promotions(
                promoted_piece_type,
                dest_piece_type,
                enemy_rooks,
                enemy_double_pawn_push,
            ) = mov_result {
                unapply_promotion(
                    self,
                    turn,
                    mov,
                    promoted_piece_type,
                    dest_piece_type,
                    enemy_rooks,
                    enemy_double_pawn_push,
                );
            }
        } else if tag == 5 {
            if let MoveResult::Enpassant(enemy_double_push_pawns, _unused) = mov_result {
                unpply_enpessant(self, turn, mov, enemy_double_push_pawns);
            }
        } else if tag == 6 || tag == 7 {
            if let MoveResult::Castle(castle_rooks, enemy_double_pawn_push) = mov_result {
                unapply_castle_move(self, turn, mov, castle_rooks, enemy_double_pawn_push);
            }
        } else if tag == 8 {
            if let MoveResult::DoublePawnPush(enemy_double_pawn_push) = mov_result {
                unapply_double_pawn_push(self, turn, mov, enemy_double_pawn_push);
            }
        } else {
            if let MoveResult::NormalMove(
                src_piece_type,
                dest_piece_type,
                rooks,
                enemy_rooks,
                enemy_double_pawn_push,
            ) = mov_result {
                unapply_normal_move(
                    self,
                    turn,
                    mov,
                    src_piece_type,
                    dest_piece_type,
                    rooks,
                    enemy_rooks,
                    enemy_double_pawn_push,
                );
            }
        }
    }
}

/// The union of the squares one side's pieces attack: pawn capture squares
/// regardless of occupancy, knight and king steps, and slider rays over the
/// full occupancy; allied and enemy squares both count.
pub open spec fn side_attacks(p: PieceSet, a: GenArgs) -> u64 {
    attacks_union(p.pawns, GenKind::PawnAttack, a) | attacks_union(p.knights, GenKind::Knight, a)
        | attacks_union(p.kings, GenKind::KingAttack, a) | attacks_union(
        p.rooks,
        GenKind::Straight,
        a,
    ) | attacks_union(p.queens, GenKind::Straight, a) | attacks_union(
        p.queens,
        GenKind::Diagonal,
        a,
    ) | attacks_union(p.bishops, GenKind::Diagonal, a)
}

/// The generator arguments an attack-map pass reads: the occupancy and whose
/// pawns are scanned.
pub open spec fn attack_args(b: BitBoard, turn: Player) -> GenArgs {
    GenArgs {
        occupied: b.black_set.occupied | b.white_set.occupied,
        turn: turn,
        enemy_double_push_pawns: 0,
        castle_rooks: 0,
        enemy_attack_map: 0,
    }
}

/// The attack map of side `turn` in position `b`.
pub open spec fn attacks_spec(b: BitBoard, turn: Player) -> u64 {
    side_attacks(b.ally(turn), attack_args(b, turn))
}

fn generate_side_attacks(p: &PieceSet, args: &GenArgs, tables: &crate::attack_maps::Tables) -> (attacks:
    u64)
    requires
        tables.wf(),
    ensures
        attacks == side_attacks(*p, *args),
{
    let mut attacks: u64 = iterate_attack_moves(p.pawns, GenKind::PawnAttack, args, tables);
    proof {
        lemma_or_basics(attacks, 0, 0);
    }
    attacks = attacks | iterate_attack_moves(p.knights, GenKind::Knight, args, tables);
    attacks = attacks | iterate_attack_moves(p.kings, GenKind::KingAttack, args, tables);
    attacks = attacks | iterate_attack_moves(p.rooks, GenKind::Straight, args, tables);
    attacks = attacks | iterate_attack_moves(p.queens, GenKind::Straight, args, tables);
    attacks = attacks | iterate_attack_moves(p.queens, GenKind::Diagonal, args, tables);
    attacks = attacks | iterate_attack_moves(p.bishops, GenKind::Diagonal, args, tables);
    attacks
}

impl BitBoard {
    /// Recompute and cache the attack map of side `turn`. Only that side's
    /// `attack_map` changes.
    pub fn generate_attack_maps(&mut self, turn: Player, tables: &crate::attack_maps::Tables)
        requires
            tables.wf(),
        ensures
            *final(self) == old(self).with_sets(
                turn,
                PieceSet { attack_map: attacks_spec(*old(self), turn), ..old(self).ally(turn) },
                old(self).enemy(turn),
            ),
    {
        let occupied = self.black_set.occupied | self.white_set.occupied;
        let args = GenArgs {
            occupied: occupied,
            turn: turn,
            enemy_double_push_pawns: 0,
            castle_rooks: 0,
            enemy_attack_map: 0,
        };
        if turn == Player::White {
            let attacks = generate_side_attacks(&self.white_set, &args, tables);
            self.white_set.attack_map = attacks;
        } else {
            let attacks = generate_side_attacks(&self.black_set, &args, tables);
            self.black_set.attack_map = attacks;
        }
    }
}

/// What a move needs of the position so that applying it is exactly
/// reversible, by tag group. Every move the generator emits for a
/// well-formed position satisfies this (see `lemma_generated_move_ok`).
pub open spec fn round_trip_pre(b: BitBoard, turn: Player, mov: u16) -> bool {
    let a = b.ally(turn);
    let e = b.enemy(turn);
    let tag = mv_tag(mov);
    let white = turn == Player::White;
    if 1 <= tag <= 4 {
        promotion_pre(a, mov)
    } else if tag == 5 {
        ep_pre(a, e, mov, white)
    } else if tag == 6 || tag == 7 {
        castle_pre(a, tag == 6)
    } else if tag == 8 {
        dpp_pre(a, mov, white)
    } else {
        normal_pre(a, mov)
    }
}

/// The apply/unapply round trip: for any well-formed position and any move
/// whose application is reversible, reversing the applied move with the
/// snapshot `apply_move` returned restores the position bit for bit — all
/// nine persistent bitboards of both sides, and the untouched side to move.
pub proof fn lemma_apply_unapply_round_trip(b: BitBoard, turn: Player, mov: u16)
    requires
        b.wf(),
        round_trip_pre(b, turn, mov),
    ensures
        unapply_move_spec(
            apply_move_spec(b, turn, mov),
            turn,
            mov,
            apply_move_undo(b, turn, mov),
        ) == b,
{
    let a = b.ally(turn);
    let e = b.enemy(turn);
    let tag = mv_tag(mov);
    let white = turn == Player::White;
    if 1 <= tag <= 4 {
        crate::engine::lemma_promotion_round_trip(a, e, mov);
    } else if tag == 5 {
        crate::engine::lemma_ep_round_trip(a, e, mov, white);
    } else if tag == 6 || tag == 7 {
        crate::engine::lemma_castle_round_trip(a, e, tag == 6);
    } else if tag == 8 {
        crate::engine::lemma_dpp_round_trip(a, e, mov, white);
    } else {
        crate::engine::lemma_normal_round_trip(a, e, mov);
    }
}

/// Applying any reversible move preserves the position invariant: for each
/// side the six kind bitboards stay pairwise disjoint, `occupied` stays
/// exactly their union, and castling rights stay on rooks. Together with
/// the round-trip law this keeps the invariant at every state of an
/// apply/unapply stack.
pub proof fn lemma_apply_move_preserves_wf(b: BitBoard, turn: Player, mov: u16)
    requires
        b.wf(),
        round_trip_pre(b, turn, mov),
    ensures
        apply_move_spec(b, turn, mov).wf(),
{
    crate::engine::lemma_apply_sets_wf(
        b.ally(turn),
        b.enemy(turn),
        mov,
        turn == Player::White,
        mv_tag(mov),
    );
}

/// The opposing rooks and queens standing somewhere on the four orthogonal
/// rays from `k`.
pub open spec fn straight_candidates(k: int, rq: u64) -> u64 {
    (straight_ray(0, k) & rq) | (straight_ray(1, k) & rq) | (straight_ray(2, k) & rq) | (
    straight_ray(3, k) & rq)
}

/// The opposing bishops and queens standing somewhere on the four diagonal
/// rays from `k`.
pub open spec fn diagonal_candidates(k: int, bq: u64) -> u64 {
    (diagonal_ray(0, k) & bq) | (diagonal_ray(1, k) & bq) | (diagonal_ray(2, k) & bq) | (
    diagonal_ray(3, k) & bq)
}

/// Some candidate slider's scan over the occupancy reaches square `k`.
pub open spec fn slider_gives_check(cand: u64, occ: u64, k: u64, straight: bool) -> bool {
    exists|i: u64|
        i < 64 && #[trigger] bit(cand, i) && bit(
            if straight {
                straight_moves_spec(i as int, occ)
            } else {
                diagonal_moves_spec(i as int, occ)
            },
            k,
        )
}

/// An opposing pawn stands on a forward diagonal of `k`, from `turn`'s
/// point of view; false when the forward rank leaves the board.
pub open spec fn pawn_gives_check(k: int, enemy_pawns: u64, turn: Player) -> bool {
    let ad = if turn == Player::Black {
        k - 8
    } else {
        k + 8
    };
    if ad < 0 || ad > 63 {
        false
    } else {
        (k % 8 != 7 && bit(enemy_pawns, (ad + 1) as u64)) || (k % 8 != 0 && bit(
            enemy_pawns,
            (ad - 1) as u64,
        ))
    }
}

/// Whether `turn`'s king is attacked in `b`: adjacent to the opposing king,
/// on a knight jump of an opposing knight, reached by an opposing rook,
/// bishop or queen over the current occupancy, or diagonally forward of an
/// opposing pawn. This reads no cached attack map.
pub open spec fn king_in_check_spec(b: BitBoard, turn: Player) -> bool {
    let ally = b.ally(turn);
    let enemy = b.enemy(turn);
    let k = u64_trailing_zeros(ally.kings) as int;
    let ek = u64_trailing_zeros(enemy.kings) as int;
    let occupied = ally.occupied | enemy.occupied;
    ||| (1u64 << (k as u64)) & king_attacks_spec(ek) != 0
    ||| knight_jumps_spec(k) & enemy.knights != 0
    ||| slider_gives_check(
        straight_candidates(k, enemy.rooks | enemy.queens),
        occupied,
        k as u64,
        true,
    )
    ||| slider_gives_check(
        diagonal_candidates(k, enemy.bishops | enemy.queens),
        occupied,
        k as u64,
        false,
    )
    ||| pawn_gives_check(k, enemy.pawns, turn)
}

impl BitBoard {
    /// The authoritative legality oracle: is `turn`'s king attacked?
    pub fn king_in_check(&self, turn: Player, tables: &crate::attack_maps::Tables) -> (r: bool)
        requires
            tables.wf(),
            self.ally(turn).kings != 0,
        ensures
            r == king_in_check_spec(*self, turn),
    {
        proof {
            broadcast use vstd::std_specs::bits::axiom_u64_trailing_zeros;

        }
        let (ally, enemy): (&PieceSet, &PieceSet) = if turn == Player::White {
            (&self.white_set, &self.black_set)
        } else {
            (&self.black_set, &self.white_set)
        };

        let king_index = get_lsb(ally.kings);
        let enemy_king_index = get_lsb(enemy.kings);

        if (1u64 << king_index) & generate_king_attacks(enemy_king_index, tables) != 0 {
            return true;
        }

        if generate_knight_moves(king_index, tables) & enemy.knights != 0 {
            return true;
        }

        let occupied = ally.occupied | enemy.occupied;
        let rq = enemy.rooks | enemy.queens;
        let mut on_same_file: u64 = (tables.straight_rays[0][king_index] & rq) | (
        tables.straight_rays[1][king_index] & rq) | (tables.straight_rays[2][king_index] & rq) | (
        tables.straight_rays[3][king_index] & rq);
        let ghost straight_cand = on_same_file;

        loop
            invariant
                tables.wf(),
                king_index < 64,
                *ally == self.ally(turn),
                *enemy == self.enemy(turn),
                king_index == u64_trailing_zeros(self.ally(turn).kings) as usize,
                occupied == ally.occupied | enemy.occupied,
                straight_cand == straight_candidates(
                    king_index as int,
                    enemy.rooks | enemy.queens,
                ),
                forall|i: u64| bit(on_same_file, i) ==> bit(straight_cand, i),
                forall|i: u64|
                    i < 64 && bit(straight_cand, i) && !bit(on_same_file, i) ==> !bit(
                        straight_moves_spec(i as int, occupied),
                        king_index as u64,
                    ),
            ensures
                !slider_gives_check(straight_cand, occupied, king_index as u64, true),
            decreases on_same_file,
        {
            let ghost prev = on_same_file;
            let index = get_lsb(on_same_file);
            if index == 64 {
                proof {
                    broadcast use vstd::std_specs::bits::axiom_u64_trailing_zeros;

                    assert(on_same_file == 0);
                    crate::utils::lemma_zero_and();
                    assert(forall|i: u64| !bit(0u64, i));
                }
                break;
            }
            proof {
                lemma_lsb_nonzero(on_same_file);
            }

            if generate_straight_moves(index, occupied, tables) & (1u64 << king_index) != 0 {
                proof {
                    assert(bit(straight_cand, index as u64) && bit(
                        straight_moves_spec(index as int, occupied),
                        king_index as u64,
                    ));
                }
                return true;
            }

            flip_bit(&mut on_same_file, index);
            proof {
                lemma_clear_set_bit_shrinks(prev, index as u64);
                assert forall|i: u64|
                    i < 64 && bit(straight_cand, i) && !bit(on_same_file, i) implies !bit(
                    straight_moves_spec(i as int, occupied),
                    king_index as u64,
                ) by {
                    if i != index as u64 {
                        lemma_clear_b_bit(prev, index as u64, i);
                    }
                }
                assert forall|i: u64| bit(on_same_file, i) implies bit(straight_cand, i) by {
                    if i < 64 {
                        lemma_clear_b_bit(prev, index as u64, i);
                    } else {
                        assert(!bit(on_same_file, i) && !bit(prev, i)) by (bit_vector)
                            requires
                                i >= 64,
                                on_same_file == prev & !(1u64 << (index as u64)),
                                index < 64,
                        ;
                    }
                }
            }
        }

        let bq = enemy.bishops | enemy.queens;
        let mut on_same_diagonal: u64 = (tables.diagonal_rays[0][king_index] & bq) | (
        tables.diagonal_rays[1][king_index] & bq) | (tables.diagonal_rays[2][king_index] & bq) | (
        tables.diagonal_rays[3][king_index] & bq);
        let ghost diag_cand = on_same_diagonal;

        loop
            invariant
                tables.wf(),
                king_index < 64,
                *ally == self.ally(turn),
                *enemy == self.enemy(turn),
                king_index == u64_trailing_zeros(self.ally(turn).kings) as usize,
                occupied == ally.occupied | enemy.occupied,
                diag_cand == diagonal_candidates(king_index as int, enemy.bishops | enemy.queens),
                forall|i: u64| bit(on_same_diagonal, i) ==> bit(diag_cand, i),
                forall|i: u64|
                    i < 64 && bit(diag_cand, i) && !bit(on_same_diagonal, i) ==> !bit(
                        diagonal_moves_spec(i as int, occupied),
                        king_index as u64,
                    ),
            ensures
                !slider_gives_check(diag_cand, occupied, king_index as u64, false),
            decreases on_same_diagonal,
        {
            let ghost prev = on_same_diagonal;
            let index = get_lsb(on_same_diagonal);
            if index == 64 {
                proof {
                    broadcast use vstd::std_specs::bits::axiom_u64_trailing_zeros;

                    assert(on_same_diagonal == 0);
                    crate::utils::lemma_zero_and();
                    assert(forall|i: u64| !bit(0u64, i));
                }
                break;
            }
            proof {
                lemma_lsb_nonzero(on_same_diagonal);
            }

            if generate_diagonal_moves(index, occupied, tables) & (1u64 << king_index) != 0 {
                proof {
                    assert(bit(diag_cand, index as u64) && bit(
                        diagonal_moves_spec(index as int, occupied),
                        king_index as u64,
                    ));
                }
                return true;
            }

            flip_bit(&mut on_same_diagonal, index);
            proof {
                lemma_clear_set_bit_shrinks(prev, index as u64);
                assert forall|i: u64|
                    i < 64 && bit(diag_cand, i) && !bit(on_same_diagonal, i) implies !bit(
                    diagonal_moves_spec(i as int, occupied),
                    king_index as u64,
                ) by {
                    if i != index as u64 {
                        lemma_clear_b_bit(prev, index as u64, i);
                    }
                }
                assert forall|i: u64| bit(on_same_diagonal, i) implies bit(diag_cand, i) by {
                    if i < 64 {
                        lemma_clear_b_bit(prev, index as u64, i);
                    } else {
                        assert(!bit(on_same_diagonal, i) && !bit(prev, i)) by (bit_vector)
                            requires
                                i >= 64,
                                on_same_diagonal == prev & !(1u64 << (index as u64)),
                                index < 64,
                        ;
                    }
                }
            }
        }

        let attack_direction: usize;
        if turn == Player::Black {
            if king_index < 8 {
                return false;
            }
            attack_direction = king_index - 8;
        } else {
            if king_index + 8 > 63 {
                return false;
            }
            attack_direction = king_index + 8;
        }

        proof {
            assert((king_index & 7 == king_index % 8) && (king_index & 7 != 7 ==> attack_direction
                + 1 < 64) && (king_index & 7 != 0 ==> attack_direction >= 1)) by (bit_vector)
                requires
                    king_index < 64,
                    attack_direction < 64,
                    attack_direction == king_index + 8 || (king_index >= 8 && attack_direction
                        == king_index - 8),
            ;
        }

        if king_index & 0b111 != 0b111 && test_bit(enemy.pawns, attack_direction + 1) {
            return true;
        }

        if king_index & 0b111 != 0 && test_bit(enemy.pawns, attack_direction - 1) {
            return true;
        }

        false
    }

    /// The pseudo-legal move list for `turn`, in the fixed scan order:
    /// bishops, queens (diagonal then straight), rooks, knights, pawns,
    /// king. The opposing attack map must have been regenerated for this
    /// position before the call for the castle tests to be meaningful.
    pub fn generate_moves(&self, turn: Player, tables: &crate::attack_maps::Tables) -> (moves: Vec<
        u16,
    >)
        requires
            tables.wf(),
        ensures
            moves@ == generate_moves_spec(*self, turn),
    {
        let (ally, enemy): (&PieceSet, &PieceSet) = if turn == Player::White {
            (&self.white_set, &self.black_set)
        } else {
            (&self.black_set, &self.white_set)
        };

        let occupied = ally.occupied | enemy.occupied;
        let args = GenArgs {
            occupied: occupied,
            turn: turn,
            enemy_double_push_pawns: enemy.double_push_pawns,
            castle_rooks: ally.castle_rooks,
            enemy_attack_map: enemy.attack_map,
        };

        let mut moves: Vec<u16> = Vec::new();

        iterate_possible_move(ally.bishops, ally, enemy, 0, GenKind::Diagonal, &args, tables, &mut moves);
        iterate_possible_move(ally.queens, ally, enemy, 0, GenKind::Diagonal, &args, tables, &mut moves);
        iterate_possible_move(ally.queens, ally, enemy, 0, GenKind::Straight, &args, tables, &mut moves);
        iterate_possible_move(ally.rooks, ally, enemy, 0, GenKind::Straight, &args, tables, &mut moves);
        iterate_possible_move(ally.knights, ally, enemy, 0, GenKind::Knight, &args, tables, &mut moves);
        iterate_possible_move(ally.pawns, ally, enemy, 1, GenKind::Pawn, &args, tables, &mut moves);
        iterate_possible_move(ally.kings, ally, enemy, 2, GenKind::King, &args, tables, &mut moves);

        proof {
            assert(moves@ =~= generate_moves_spec(*self, turn));
        }
        moves
    }
}

/// The side has exactly one king on the board.
pub open spec fn kings_single(p: PieceSet) -> bool {
    p.kings != 0 && p.kings == (1u64 << (u64_trailing_zeros(p.kings) as u64))
}

/// The side's en-passant mark is well formed: clear, or a single bit on
/// that side's target rank with the double-pushed pawn one rank beyond it.
pub open spec fn ep_mark_consistent(p: PieceSet, white: bool) -> bool {
    let t = u64_trailing_zeros(p.double_push_pawns) as u64;
    p.double_push_pawns == 0 || (p.double_push_pawns == (1u64 << t) && (if white {
        16 <= t < 24 && bit(p.pawns, (t + 8) as u64)
    } else {
        40 <= t < 48 && bit(p.pawns, (t - 8) as u64)
    }))
}

/// The castle path squares are free when their between-mask is clear.
proof fn lemma_castle_mask_bits(occ: u64)
    by (bit_vector)
    ensures
        occ & ((1u64 << 5) | (1u64 << 6)) == 0 ==> occ & (1u64 << 5) == 0 && occ & (1u64 << 6)
            == 0,
        occ & ((1u64 << 1) | (1u64 << 2) | (1u64 << 3)) == 0 ==> occ & (1u64 << 1) == 0 && occ & (
        1u64 << 2) == 0 && occ & (1u64 << 3) == 0,
        occ & ((1u64 << 61) | (1u64 << 62)) == 0 ==> occ & (1u64 << 61) == 0 && occ & (1u64 << 62)
            == 0,
        occ & ((1u64 << 57) | (1u64 << 59) | (1u64 << 58)) == 0 ==> occ & (1u64 << 57) == 0 && occ
            & (1u64 << 58) == 0 && occ & (1u64 << 59) == 0,
{
}

/// A square empty of all allied pieces holds no piece of any allied kind.
proof fn lemma_square_free(p: PieceSet, i: u64)
    requires
        p.wf(),
        i < 64,
        !bit(p.occupied, i),
    ensures
        !bit(p.pawns, i),
        !bit(p.knights, i),
        !bit(p.bishops, i),
        !bit(p.rooks, i),
        !bit(p.queens, i),
        !bit(p.kings, i),
{
    crate::engine::lemma_occupied_bit(p, i);
}

/// A tag-0 move whose source holds an allied piece and whose destination
/// is free of allied pieces is reversible.
proof fn lemma_normal_case(a: PieceSet, m: u16)
    requires
        a.wf(),
        0 <= mv_src(m) < 64,
        0 <= mv_dst(m) < 64,
        has_piece(a, mv_src(m) as u64),
        !bit(a.occupied, mv_dst(m) as u64),
    ensures
        normal_pre(a, m),
{
    crate::engine::lemma_occupied_bit(a, mv_src(m) as u64);
}

/// The soundness of the generator toward the engine: for a well-formed
/// position with one king per side, no stale mark of the mover's own, and
/// a well-formed opposing en-passant mark, every move `generate_moves`
/// emits can be applied without leaving the board and reversed exactly.
pub proof fn lemma_generated_move_ok(b: BitBoard, turn: Player, k: int)
    requires
        b.wf(),
        kings_single(b.ally(turn)),
        b.ally(turn).double_push_pawns == 0,
        ep_mark_consistent(b.enemy(turn), turn == Player::Black),
        0 <= k < generate_moves_spec(b, turn).len(),
    ensures
        move_ok(b, turn, generate_moves_spec(b, turn)[k]),
        round_trip_pre(b, turn, generate_moves_spec(b, turn)[k]),
{
    broadcast use vstd::std_specs::bits::axiom_u64_trailing_zeros;

    let a = b.ally(turn);
    let e = b.enemy(turn);
    let white = turn == Player::White;
    let args = GenArgs {
        occupied: a.occupied | e.occupied,
        turn: turn,
        enemy_double_push_pawns: e.double_push_pawns,
        castle_rooks: a.castle_rooks,
        enemy_attack_map: e.attack_map,
    };
    let g1 = positions_moves(a.bishops, GenKind::Diagonal, args, a.occupied, e.occupied, 0);
    let g2 = positions_moves(a.queens, GenKind::Diagonal, args, a.occupied, e.occupied, 0);
    let g3 = positions_moves(a.queens, GenKind::Straight, args, a.occupied, e.occupied, 0);
    let g4 = positions_moves(a.rooks, GenKind::Straight, args, a.occupied, e.occupied, 0);
    let g5 = positions_moves(a.knights, GenKind::Knight, args, a.occupied, e.occupied, 0);
    let g6 = positions_moves(a.pawns, GenKind::Pawn, args, a.occupied, e.occupied, 1);
    let g7 = positions_moves(a.kings, GenKind::King, args, a.occupied, e.occupied, 2);
    let gm = generate_moves_spec(b, turn);
    assert(gm == g1 + g2 + g3 + g4 + g5 + g6 + g7);
    let m = gm[k];
    let l5 = g1.len() + g2.len() + g3.len() + g4.len() + g5.len();
    if k < l5 {
        // A slider or knight move: always tag 0.
        if k < g1.len() {
            lemma_positions_moves_elem(a.bishops, GenKind::Diagonal, args, a.occupied, e.occupied, 0, k);
            assert(m == g1[k]);
        } else if k < g1.len() + g2.len() {
            lemma_positions_moves_elem(a.queens, GenKind::Diagonal, args, a.occupied, e.occupied, 0, k - g1.len());
            assert(m == g2[k - g1.len()]);
        } else if k < g1.len() + g2.len() + g3.len() {
            lemma_positions_moves_elem(a.queens, GenKind::Straight, args, a.occupied, e.occupied, 0, k - g1.len() - g2.len());
            assert(m == g3[k - g1.len() - g2.len()]);
        } else if k < g1.len() + g2.len() + g3.len() + g4.len() {
            lemma_positions_moves_elem(a.rooks, GenKind::Straight, args, a.occupied, e.occupied, 0, k - g1.len() - g2.len() - g3.len());
            assert(m == g4[k - g1.len() - g2.len() - g3.len()]);
        } else {
            lemma_positions_moves_elem(a.knights, GenKind::Knight, args, a.occupied, e.occupied, 0, k - g1.len() - g2.len() - g3.len() - g4.len());
            assert(m == g5[k - g1.len() - g2.len() - g3.len() - g4.len()]);
        }
        lemma_normal_case(a, m);
    } else if k < l5 + g6.len() {
        // A pawn move.
        lemma_positions_moves_elem(a.pawns, GenKind::Pawn, args, a.occupied, e.occupied, 1, k - l5);
        assert(m == g6[k - l5]);
        let s = mv_src(m);
        let d = mv_dst(m);
        let du = d as u64;
        let c = turn.spec_index();
        crate::move_generator::lemma_pawn_target_structure(
            s,
            args.occupied,
            c,
            e.double_push_pawns,
            du,
        );
        let tag = mv_tag(m);
        if 1 <= tag <= 4 {
            lemma_normal_case(a, m);
        } else if tag == 5 {
            crate::utils::lemma_or2_bit(a.occupied, e.occupied, du);
            assert(bit(e.double_push_pawns, du));
            let t = u64_trailing_zeros(e.double_push_pawns) as u64;
            assert(e.double_push_pawns != 0) by {
                crate::utils::lemma_zero_and();
            }
            crate::utils::lemma_single_bit_eq(t, du);
            assert(du == t);
            crate::engine::lemma_occupied_bit(a, s as u64);
        } else if tag == 8 {
            crate::engine::lemma_occupied_bit(a, s as u64);
        } else {
            lemma_normal_case(a, m);
        }
    } else {
        // A king move.
        lemma_positions_moves_elem(a.kings, GenKind::King, args, a.occupied, e.occupied, 2, k - l5 - g6.len());
        assert(m == g7[k - l5 - g6.len()]);
        let s = mv_src(m);
        let d = mv_dst(m);
        let du = d as u64;
        let tag = mv_tag(m);
        if tag == 6 || tag == 7 {
            let tz = u64_trailing_zeros(a.kings) as u64;
            crate::utils::lemma_single_bit_eq(tz, s as u64);
            assert(s as u64 == tz);
            let black = turn == Player::Black;
            let base = king_attacks_spec(s);
            let kms = king_moves_spec(s, args.occupied, a.castle_rooks, black, e.attack_map);
            lemma_castle_mask_bits(args.occupied);
            if !black && s == 4 {
                let ks_cond = bit(a.castle_rooks, 7) && args.occupied
                    & crate::move_generator::WHITE_KINGSIDE_MASK == 0 && e.attack_map
                    & crate::move_generator::WHITE_KINGSIDE_MASK_WITH_KING == 0;
                let qs_cond = bit(a.castle_rooks, 0) && args.occupied
                    & crate::move_generator::WHITE_QUEENSIDE_MASK == 0 && e.attack_map
                    & crate::move_generator::WHITE_QUEENSIDE_MASK_WITH_KING == 0;
                let m1 = if ks_cond {
                    base | (1u64 << 6)
                } else {
                    base
                };
                assert(kms == if qs_cond {
                    m1 | (1u64 << 2)
                } else {
                    m1
                });
                if qs_cond {
                    crate::utils::lemma_or2_bit(m1, 1u64 << 2, du);
                }
                if ks_cond {
                    crate::utils::lemma_or2_bit(base, 1u64 << 6, du);
                }
                crate::utils::lemma_single_bit_eq(6, du);
                crate::utils::lemma_single_bit_eq(2, du);
                if bit(base, du) {
                    crate::move_generator::lemma_king_attacks_same_rank(s, du);
                    assert(false);
                }
                if tag == 6 {
                    assert(du == 6 && ks_cond);
                    crate::utils::lemma_sub_bit(a.castle_rooks, a.rooks, 7);
                    crate::utils::lemma_or2_bit(a.occupied, e.occupied, 5);
                    crate::utils::lemma_or2_bit(a.occupied, e.occupied, 6);
                    lemma_square_free(a, 5);
                    lemma_square_free(a, 6);
                    assert(castle_pre(a, true));
                } else {
                    assert(du == 2 && qs_cond);
                    crate::utils::lemma_sub_bit(a.castle_rooks, a.rooks, 0);
                    crate::utils::lemma_or2_bit(a.occupied, e.occupied, 1);
                    crate::utils::lemma_or2_bit(a.occupied, e.occupied, 2);
                    crate::utils::lemma_or2_bit(a.occupied, e.occupied, 3);
                    lemma_square_free(a, 1);
                    lemma_square_free(a, 2);
                    lemma_square_free(a, 3);
                    assert(castle_pre(a, false));
                }
            } else if black && s == 60 {
                let ks_cond = bit(a.castle_rooks, 63) && args.occupied
                    & crate::move_generator::BLACK_KINGSIDE_MASK == 0 && e.attack_map
                    & crate::move_generator::BLACK_KINGSIDE_MASK_WITH_KING == 0;
                let qs_cond = bit(a.castle_rooks, 56) && args.occupied
                    & crate::move_generator::BLACK_QUEENSIDE_MASK == 0 && e.attack_map
                    & crate::move_generator::BLACK_QUEENSIDE_MASK_WITH_KING == 0;
                let m1 = if ks_cond {
                    base | (1u64 << 62)
                } else {
                    base
                };
                assert(kms == if qs_cond {
                    m1 | (1u64 << 58)
                } else {
                    m1
                });
                if qs_cond {
                    crate::utils::lemma_or2_bit(m1, 1u64 << 58, du);
                }
                if ks_cond {
                    crate::utils::lemma_or2_bit(base, 1u64 << 62, du);
                }
                crate::utils::lemma_single_bit_eq(62, du);
                crate::utils::lemma_single_bit_eq(58, du);
                if bit(base, du) {
                    crate::move_generator::lemma_king_attacks_same_rank(s, du);
                    assert(false);
                }
                if tag == 6 {
                    assert(du == 62 && ks_cond);
                    crate::utils::lemma_sub_bit(a.castle_rooks, a.rooks, 63);
                    crate::utils::lemma_or2_bit(a.occupied, e.occupied, 61);
                    crate::utils::lemma_or2_bit(a.occupied, e.occupied, 62);
                    lemma_square_free(a, 61);
                    lemma_square_free(a, 62);
                    assert(castle_pre(a, true));
                } else {
                    assert(du == 58 && qs_cond);
                    crate::utils::lemma_sub_bit(a.castle_rooks, a.rooks, 56);
                    crate::utils::lemma_or2_bit(a.occupied, e.occupied, 57);
                    crate::utils::lemma_or2_bit(a.occupied, e.occupied, 58);
                    crate::utils::lemma_or2_bit(a.occupied, e.occupied, 59);
                    lemma_square_free(a, 57);
                    lemma_square_free(a, 58);
                    lemma_square_free(a, 59);
                    assert(castle_pre(a, false));
                }
            } else {
                assert(kms == base);
                crate::move_generator::lemma_king_attacks_same_rank(s, du);
                assert(false);
            }
        } else {
            lemma_normal_case(a, m);
        }
    }
}

/// The full pseudo-legal move list of `turn` in `b`, in generation order.
pub open spec fn generate_moves_spec(b: BitBoard, turn: Player) -> Seq<u16> {
    let a = b.ally(turn);
    let e = b.enemy(turn);
    let args = GenArgs {
        occupied: a.occupied | e.occupied,
        turn: turn,
        enemy_double_push_pawns: e.double_push_pawns,
        castle_rooks: a.castle_rooks,
        enemy_attack_map: e.attack_map,
    };
    positions_moves(a.bishops, GenKind::Diagonal, args, a.occupied, e.occupied, 0) + positions_moves(
        a.queens,
        GenKind::Diagonal,
        args,
        a.occupied,
        e.occupied,
        0,
    ) + positions_moves(a.queens, GenKind::Straight, args, a.occupied, e.occupied, 0)
        + positions_moves(a.rooks, GenKind::Straight, args, a.occupied, e.occupied, 0)
        + positions_moves(a.knights, GenKind::Knight, args, a.occupied, e.occupied, 0)
        + positions_moves(a.pawns, GenKind::Pawn, args, a.occupied, e.occupied, 1)
        + positions_moves(a.kings, GenKind::King, args, a.occupied, e.occupied, 2)
}

} // verus!
