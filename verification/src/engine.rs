//! Applying and reversing the five kinds of moves. Every `apply_*` returns
//! the snapshot its `unapply_*` needs to restore the position exactly.

use vstd::prelude::*;

verus! {

use crate::bit_board::BitBoard;
use crate::move_generator::mv_dst;
use crate::move_generator::mv_src;
use crate::move_generator::mv_tag;
use crate::move_generator::CASTLE_KING;
use crate::piece_set::PieceSet;
use crate::player::Player;
use crate::utils::bit;
use crate::utils::clear_b;
use crate::utils::get_lsb;
use crate::utils::reset_bit;
use crate::utils::set_b;
use crate::utils::set_bit;
use vstd::std_specs::bits::u64_trailing_zeros;

#[derive(Eq, Hash, PartialEq, Structural, Debug, Clone, Copy)]
pub enum PieceType {
    Pawn,
    Knight,
    Bishop,
    Rook,
    Queen,
    King,
}

/// The undo snapshot of an applied move, discriminated by the move's tag
/// group.
pub enum MoveResult {
    Enpassant(u64, u64),
    Castle(u64, u64),
    Promotions(PieceType, Option<PieceType>, u64, u64),
    NormalMove(PieceType, Option<PieceType>, u64, u64, u64),
    DoublePawnPush(u64),
}

/// Some kind bitboard of `p` holds square `i`.
pub open spec fn has_piece(p: PieceSet, i: u64) -> bool {
    ||| bit(p.rooks, i)
    ||| bit(p.knights, i)
    ||| bit(p.bishops, i)
    ||| bit(p.queens, i)
    ||| bit(p.kings, i)
    ||| bit(p.pawns, i)
}

/// The kind occupying square `i`, searched in the fixed kind order; `Pawn`
/// when the square is empty.
pub open spec fn kind_of(p: PieceSet, i: u64) -> PieceType {
    if bit(p.rooks, i) {
        PieceType::Rook
    } else if bit(p.knights, i) {
        PieceType::Knight
    } else if bit(p.bishops, i) {
        PieceType::Bishop
    } else if bit(p.queens, i) {
        PieceType::Queen
    } else if bit(p.kings, i) {
        PieceType::King
    } else {
        PieceType::Pawn
    }
}

/// The kind occupying square `i`, or `None` on an empty square.
pub open spec fn piece_kind_at(p: PieceSet, i: u64) -> Option<PieceType> {
    if has_piece(p, i) {
        Some(kind_of(p, i))
    } else {
        None
    }
}

/// The bitboard of kind `t` in `p`.
pub open spec fn kind_bb(p: PieceSet, t: PieceType) -> u64 {
    match t {
        PieceType::Rook => p.rooks,
        PieceType::Knight => p.knights,
        PieceType::Bishop => p.bishops,
        PieceType::Queen => p.queens,
        PieceType::King => p.kings,
        PieceType::Pawn => p.pawns,
    }
}

/// `p` with the bitboard of kind `t` replaced by `v`.
pub open spec fn with_kind(p: PieceSet, t: PieceType, v: u64) -> PieceSet {
    match t {
        PieceType::Rook => PieceSet { rooks: v, ..p },
        PieceType::Knight => PieceSet { knights: v, ..p },
        PieceType::Bishop => PieceSet { bishops: v, ..p },
        PieceType::Queen => PieceSet { queens: v, ..p },
        PieceType::King => PieceSet { kings: v, ..p },
        PieceType::Pawn => PieceSet { pawns: v, ..p },
    }
}

pub fn get_piece_type(pieces: &PieceSet, index: usize) -> (r: Option<PieceType>)
    requires
        index < 64,
    ensures
        r == piece_kind_at(*pieces, index as u64),
{
    if pieces.rooks & (1u64 << index) != 0 {
        Some(PieceType::Rook)
    } else if pieces.knights & (1u64 << index) != 0 {
        Some(PieceType::Knight)
    } else if pieces.bishops & (1u64 << index) != 0 {
        Some(PieceType::Bishop)
    } else if pieces.queens & (1u64 << index) != 0 {
        Some(PieceType::Queen)
    } else if pieces.kings & (1u64 << index) != 0 {
        Some(PieceType::King)
    } else if pieces.pawns & (1u64 << index) != 0 {
        Some(PieceType::Pawn)
    } else {
        None
    }
}

/// Clear square `index` in the bitboard of kind `piece_type`.
fn reset_piece_bit(pieces: &mut PieceSet, piece_type: PieceType, index: usize)
    requires
        index < 64,
    ensures
        *final(pieces) == with_kind(
            *old(pieces),
            piece_type,
            clear_b(kind_bb(*old(pieces), piece_type), index as u64),
        ),
{
    match piece_type {
        PieceType::Rook => reset_bit(&mut pieces.rooks, index),
        PieceType::Knight => reset_bit(&mut pieces.knights, index),
        PieceType::Bishop => reset_bit(&mut pieces.bishops, index),
        PieceType::Queen => reset_bit(&mut pieces.queens, index),
        PieceType::King => reset_bit(&mut pieces.kings, index),
        PieceType::Pawn => reset_bit(&mut pieces.pawns, index),
    }
}

/// Set square `index` in the bitboard of kind `piece_type`.
fn set_piece_bit(pieces: &mut PieceSet, piece_type: PieceType, index: usize)
    requires
        index < 64,
    ensures
        *final(pieces) == with_kind(
            *old(pieces),
            piece_type,
            set_b(kind_bb(*old(pieces), piece_type), index as u64),
        ),
{
    match piece_type {
        PieceType::Rook => set_bit(&mut pieces.rooks, index),
        PieceType::Knight => set_bit(&mut pieces.knights, index),
        PieceType::Bishop => set_bit(&mut pieces.bishops, index),
        PieceType::Queen => set_bit(&mut pieces.queens, index),
        PieceType::King => set_bit(&mut pieces.kings, index),
        PieceType::Pawn => set_bit(&mut pieces.pawns, index),
    }
}

/// The mover's and opponent's sets after a tag-0 move: the mover's kind
/// bitboard and occupancy move the src bit to dst, rights are revoked for a
/// king or rook move and for a captured castle rook, any captured kind loses
/// its dst bit, and the opponent's en-passant mark is cleared.
pub open spec fn normal_applied(ally: PieceSet, enemy: PieceSet, mov: u16) -> (PieceSet, PieceSet) {
    let src = mv_src(mov) as u64;
    let dst = mv_dst(mov) as u64;
    let kind = kind_of(ally, src);
    let a1 = PieceSet {
        castle_rooks: if kind == PieceType::King {
            0
        } else if kind == PieceType::Rook {
            clear_b(ally.castle_rooks, src)
        } else {
            ally.castle_rooks
        },
        ..ally
    };
    let a2 = with_kind(a1, kind, set_b(clear_b(kind_bb(a1, kind), src), dst));
    let a3 = PieceSet { occupied: set_b(clear_b(a2.occupied, src), dst), ..a2 };
    let e1 = if has_piece(enemy, dst) {
        let ck = kind_of(enemy, dst);
        let e_cap = with_kind(enemy, ck, clear_b(kind_bb(enemy, ck), dst));
        PieceSet {
            castle_rooks: if ck == PieceType::Rook {
                clear_b(enemy.castle_rooks, dst)
            } else {
                enemy.castle_rooks
            },
            occupied: clear_b(enemy.occupied, dst),
            ..e_cap
        }
    } else {
        enemy
    };
    let e2 = PieceSet { double_push_pawns: 0, ..e1 };
    (a3, e2)
}

/// The snapshot a tag-0 move saves: mover kind, captured kind, both sides'
/// castle rooks, and the opponent's en-passant mark.
pub open spec fn normal_undo(ally: PieceSet, enemy: PieceSet, mov: u16) -> (
    PieceType,
    Option<PieceType>,
    u64,
    u64,
    u64,
) {
    (
        kind_of(ally, mv_src(mov) as u64),
        piece_kind_at(enemy, mv_dst(mov) as u64),
        ally.castle_rooks,
        enemy.castle_rooks,
        enemy.double_push_pawns,
    )
}

/// The mover's and opponent's sets after reversing a tag-0 move with its
/// snapshot.
pub open spec fn normal_unapplied(
    ally: PieceSet,
    enemy: PieceSet,
    mov: u16,
    src_piece_type: PieceType,
    dest_piece_type: Option<PieceType>,
    ally_rooks: u64,
    enemy_rooks: u64,
    enemy_double_pawn_push: u64,
) -> (PieceSet, PieceSet) {
    let src = mv_src(mov) as u64;
    let dst = mv_dst(mov) as u64;
    let a1 = PieceSet { castle_rooks: ally_rooks, ..ally };
    let a2 = with_kind(a1, src_piece_type, set_b(clear_b(kind_bb(a1, src_piece_type), dst), src));
    let a3 = PieceSet { occupied: set_b(clear_b(a2.occupied, dst), src), ..a2 };
    let e1 = PieceSet { castle_rooks: enemy_rooks, ..enemy };
    let e2 = match dest_piece_type {
        Some(k) => {
            let e_res = with_kind(e1, k, set_b(kind_bb(e1, k), dst));
            PieceSet { occupied: set_b(e_res.occupied, dst), ..e_res }
        },
        None => e1,
    };
    let e3 = PieceSet { double_push_pawns: enemy_double_pawn_push, ..e2 };
    (a3, e3)
}

fn apply_normal_sets(ally: &mut PieceSet, enemy: &mut PieceSet, mov: u16) -> (r: (
    PieceType,
    Option<PieceType>,
    u64,
    u64,
    u64,
))
    requires
        has_piece(*old(ally), mv_src(mov) as u64),
    ensures
        *final(ally) == normal_applied(*old(ally), *old(enemy), mov).0,
        *final(enemy) == normal_applied(*old(ally), *old(enemy), mov).1,
        r == normal_undo(*old(ally), *old(enemy), mov),
{
    proof {
        crate::move_generator::lemma_mv_bounds(mov);
    }
    let src = (mov & 0x3F) as usize;
    let dest = ((mov >> 6) & 0x3F) as usize;

    let src_piece_type = get_piece_type(ally, src).unwrap();

    let ally_rooks = ally.castle_rooks;
    let enemy_rooks = enemy.castle_rooks;

    if src_piece_type == PieceType::King {
        ally.castle_rooks = 0;
    }
    if src_piece_type == PieceType::Rook {
        reset_bit(&mut ally.castle_rooks, src);
    }

    let dest_piece_type = get_piece_type(enemy, dest);

    reset_piece_bit(ally, src_piece_type, src);
    set_piece_bit(ally, src_piece_type, dest);

    reset_bit(&mut ally.occupied, src);
    set_bit(&mut ally.occupied, dest);

    if let Some(piece_type) = dest_piece_type {
        if piece_type == PieceType::Rook {
            reset_bit(&mut enemy.castle_rooks, dest);
        }
        reset_bit(&mut enemy.occupied, dest);
        reset_piece_bit(enemy, piece_type, dest);
    }

    let enemy_double_push_pawns = enemy.double_push_pawns;
    enemy.double_push_pawns = 0;

    (src_piece_type, dest_piece_type, ally_rooks, enemy_rooks, enemy_double_push_pawns)
}

pub fn apply_normal_move(board: &mut BitBoard, turn: Player, mov: u16) -> (r: (
    PieceType,
    Option<PieceType>,
    u64,
    u64,
    u64,
))
    requires
        has_piece(old(board).ally(turn), mv_src(mov) as u64),
    ensures
        *final(board) == old(board).with_sets(
            turn,
            normal_applied(old(board).ally(turn), old(board).enemy(turn), mov).0,
            normal_applied(old(board).ally(turn), old(board).enemy(turn), mov).1,
        ),
        r == normal_undo(old(board).ally(turn), old(board).enemy(turn), mov),
{
    if turn == Player::White {
        apply_normal_sets(&mut board.white_set, &mut board.black_set, mov)
    } else {
        apply_normal_sets(&mut board.black_set, &mut board.white_set, mov)
    }
}

fn unapply_normal_sets(
    ally: &mut PieceSet,
    enemy: &mut PieceSet,
    mov: u16,
    src_piece_type: PieceType,
    dest_piece_type: Option<PieceType>,
    ally_rooks: u64,
    enemy_rooks: u64,
    enemy_double_pawn_push: u64,
)
    ensures
        *final(ally) == normal_unapplied(
            *old(ally),
            *old(enemy),
            mov,
            src_piece_type,
            dest_piece_type,
            ally_rooks,
            enemy_rooks,
            enemy_double_pawn_push,
        ).0,
        *final(enemy) == normal_unapplied(
            *old(ally),
            *old(enemy),
            mov,
            src_piece_type,
            dest_piece_type,
            ally_rooks,
            enemy_rooks,
            enemy_double_pawn_push,
        ).1,
{
    proof {
        crate::move_generator::lemma_mv_bounds(mov);
    }
    ally.castle_rooks = ally_rooks;
    enemy.castle_rooks = enemy_rooks;

    let src = (mov & 0x3F) as usize;
    let dest = ((mov >> 6) & 0x3F) as usize;

    reset_piece_bit(ally, src_piece_type, dest);
    set_piece_bit(ally, src_piece_type, src);

    reset_bit(&mut ally.occupied, dest);
    set_bit(&mut ally.occupied, src);

    if let Some(dest_piece) = dest_piece_type {
        set_piece_bit(enemy, dest_piece, dest);
        set_bit(&mut enemy.occupied, dest);
    }

    enemy.double_push_pawns = enemy_double_pawn_push;
}

pub fn unapply_normal_move(
    board: &mut BitBoard,
    turn: Player,
    mov: u16,
    src_piece_type: PieceType,
    dest_piece_type: Option<PieceType>,
    ally_rooks: u64,
    enemy_rooks: u64,
    enemy_double_pawn_push: u64,
)
    ensures
        *final(board) == old(board).with_sets(
            turn,
            normal_unapplied(
                old(board).ally(turn),
                old(board).enemy(turn),
                mov,
                src_piece_type,
                dest_piece_type,
                ally_rooks,
                enemy_rooks,
                enemy_double_pawn_push,
            ).0,
            normal_unapplied(
                old(board).ally(turn),
                old(board).enemy(turn),
                mov,
                src_piece_type,
                dest_piece_type,
                ally_rooks,
                enemy_rooks,
                enemy_double_pawn_push,
            ).1,
        ),
{
    if turn == Player::White {
        unapply_normal_sets(
            &mut board.white_set,
            &mut board.black_set,
            mov,
            src_piece_type,
            dest_piece_type,
            ally_rooks,
            enemy_rooks,
            enemy_double_pawn_push,
        );
    } else {
        unapply_normal_sets(
            &mut board.black_set,
            &mut board.white_set,
            mov,
            src_piece_type,
            dest_piece_type,
            ally_rooks,
            enemy_rooks,
            enemy_double_pawn_push,
        );
    }
}

/// The mover's and opponent's sets after castling: king and rook leave
/// their home squares for the two squares toward each other; all of the
/// mover's rights are revoked and the opponent's en-passant mark cleared.
pub open spec fn castle_applied(ally: PieceSet, enemy: PieceSet, kingside: bool) -> (
    PieceSet,
    PieceSet,
) {
    let k = u64_trailing_zeros(ally.kings) as u64;
    let a1 = if kingside {
        PieceSet {
            kings: set_b(clear_b(ally.kings, k), (k + 2) as u64),
            rooks: set_b(clear_b(ally.rooks, (k + 3) as u64), (k + 1) as u64),
            occupied: set_b(
                set_b(clear_b(clear_b(ally.occupied, k), (k + 3) as u64), (k + 2) as u64),
                (k + 1) as u64,
            ),
            ..ally
        }
    } else {
        PieceSet {
            kings: set_b(clear_b(ally.kings, k), (k - 2) as u64),
            rooks: set_b(clear_b(ally.rooks, (k - 4) as u64), (k - 1) as u64),
            occupied: set_b(
                set_b(clear_b(clear_b(ally.occupied, k), (k - 4) as u64), (k - 2) as u64),
                (k - 1) as u64,
            ),
            ..ally
        }
    };
    let a2 = PieceSet { castle_rooks: 0, ..a1 };
    let e1 = PieceSet { double_push_pawns: 0, ..enemy };
    (a2, e1)
}

/// The mover's and opponent's sets after reversing a castle with its
/// snapshot.
pub open spec fn castle_unapplied(
    ally: PieceSet,
    enemy: PieceSet,
    kingside: bool,
    castle_rooks: u64,
    enemy_double_pawn_push: u64,
) -> (PieceSet, PieceSet) {
    let k = u64_trailing_zeros(ally.kings) as u64;
    let a1 = if kingside {
        PieceSet {
            kings: set_b(clear_b(ally.kings, k), (k - 2) as u64),
            rooks: set_b(clear_b(ally.rooks, (k - 1) as u64), (k + 1) as u64),
            occupied: set_b(
                set_b(clear_b(clear_b(ally.occupied, k), (k - 1) as u64), (k - 2) as u64),
                (k + 1) as u64,
            ),
            ..ally
        }
    } else {
        PieceSet {
            kings: set_b(clear_b(ally.kings, k), (k + 2) as u64),
            rooks: set_b(clear_b(ally.rooks, (k + 1) as u64), (k - 2) as u64),
            occupied: set_b(
                set_b(clear_b(clear_b(ally.occupied, k), (k + 1) as u64), (k - 2) as u64),
                (k + 2) as u64,
            ),
            ..ally
        }
    };
    let a2 = PieceSet { castle_rooks: castle_rooks, ..a1 };
    let e1 = PieceSet { double_push_pawns: enemy_double_pawn_push, ..enemy };
    (a2, e1)
}

fn apply_castle_sets(ally: &mut PieceSet, enemy: &mut PieceSet, mov: u16) -> (r: (u64, u64))
    requires
        old(ally).kings != 0,
        mv_tag(mov) == 6 ==> u64_trailing_zeros(old(ally).kings) + 3 < 64,
        mv_tag(mov) != 6 ==> u64_trailing_zeros(old(ally).kings) >= 4,
    ensures
        *final(ally) == castle_applied(*old(ally), *old(enemy), mv_tag(mov) == 6).0,
        *final(enemy) == castle_applied(*old(ally), *old(enemy), mv_tag(mov) == 6).1,
        r == (old(ally).castle_rooks, old(enemy).double_push_pawns),
{
    proof {
        broadcast use vstd::std_specs::bits::axiom_u64_trailing_zeros;

    }
    let king_index = get_lsb(ally.kings);

    if mov >> 12 == CASTLE_KING {
        reset_bit(&mut ally.kings, king_index);
        reset_bit(&mut ally.occupied, king_index);

        reset_bit(&mut ally.rooks, king_index + 3);
        reset_bit(&mut ally.occupied, king_index + 3);

        set_bit(&mut ally.kings, king_index + 2);
        set_bit(&mut ally.occupied, king_index + 2);

        set_bit(&mut ally.rooks, king_index + 1);
        set_bit(&mut ally.occupied, king_index + 1);
    } else {
        reset_bit(&mut ally.kings, king_index);
        reset_bit(&mut ally.occupied, king_index);

        reset_bit(&mut ally.rooks, king_index - 4);
        reset_bit(&mut ally.occupied, king_index - 4);

        set_bit(&mut ally.kings, king_index - 2);
        set_bit(&mut ally.occupied, king_index - 2);

        set_bit(&mut ally.rooks, king_index - 1);
        set_bit(&mut ally.occupied, king_index - 1);
    }
    let castle_rooks = ally.castle_rooks;
    ally.castle_rooks = 0;

    let enemy_double_push_pawns = enemy.double_push_pawns;
    enemy.double_push_pawns = 0;

    (castle_rooks, enemy_double_push_pawns)
}

pub fn apply_castle_move(board: &mut BitBoard, turn: Player, mov: u16) -> (r: (u64, u64))
    requires
        old(board).ally(turn).kings != 0,
        mv_tag(mov) == 6 ==> u64_trailing_zeros(old(board).ally(turn).kings) + 3 < 64,
        mv_tag(mov) != 6 ==> u64_trailing_zeros(old(board).ally(turn).kings) >= 4,
    ensures
        *final(board) == old(board).with_sets(
            turn,
            castle_applied(old(board).ally(turn), old(board).enemy(turn), mv_tag(mov) == 6).0,
            castle_applied(old(board).ally(turn), old(board).enemy(turn), mv_tag(mov) == 6).1,
        ),
        r == (old(board).ally(turn).castle_rooks, old(board).enemy(turn).double_push_pawns),
{
    if turn == Player::White {
        apply_castle_sets(&mut board.white_set, &mut board.black_set, mov)
    } else {
        apply_castle_sets(&mut board.black_set, &mut board.white_set, mov)
    }
}

fn unapply_castle_sets(
    ally: &mut PieceSet,
    enemy: &mut PieceSet,
    mov: u16,
    castle_rooks: u64,
    enemy_double_pawn_push: u64,
)
    requires
        old(ally).kings != 0,
        mv_tag(mov) == 6 ==> u64_trailing_zeros(old(ally).kings) >= 2 && u64_trailing_zeros(
            old(ally).kings,
        ) + 1 < 64,
        mv_tag(mov) != 6 ==> u64_trailing_zeros(old(ally).kings) >= 2 && u64_trailing_zeros(
            old(ally).kings,
        ) + 2 < 64,
    ensures
        *final(ally) == castle_unapplied(
            *old(ally),
            *old(enemy),
            mv_tag(mov) == 6,
            castle_rooks,
            enemy_double_pawn_push,
        ).0,
        *final(enemy) == castle_unapplied(
            *old(ally),
            *old(enemy),
            mv_tag(mov) == 6,
            castle_rooks,
            enemy_double_pawn_push,
        ).1,
{
    proof {
        broadcast use vstd::std_specs::bits::axiom_u64_trailing_zeros;

    }
    let king_index = get_lsb(ally.kings);

    if mov >> 12 == CASTLE_KING {
        reset_bit(&mut ally.kings, king_index);
        reset_bit(&mut ally.occupied, king_index);

        reset_bit(&mut ally.rooks, king_index - 1);
        reset_bit(&mut ally.occupied, king_index - 1);

        set_bit(&mut ally.kings, king_index - 2);
        set_bit(&mut ally.occupied, king_index - 2);

        set_bit(&mut ally.rooks, king_index + 1);
        set_bit(&mut ally.occupied, king_index + 1);
    } else {
        reset_bit(&mut ally.kings, king_index);
        reset_bit(&mut ally.occupied, king_index);

        reset_bit(&mut ally.rooks, king_index + 1);
        reset_bit(&mut ally.occupied, king_index + 1);

        set_bit(&mut ally.rooks, king_index - 2);
        set_bit(&mut ally.occupied, king_index - 2);

        set_bit(&mut ally.kings, king_index + 2);
        set_bit(&mut ally.occupied, king_index + 2);
    }
    ally.castle_rooks = castle_rooks;
    enemy.double_push_pawns = enemy_double_pawn_push;
}

pub fn unapply_castle_move(
    board: &mut BitBoard,
    turn: Player,
    mov: u16,
    castle_rooks: u64,
    enemy_double_pawn_push: u64,
)
    requires
        old(board).ally(turn).kings != 0,
        mv_tag(mov) == 6 ==> u64_trailing_zeros(old(board).ally(turn).kings) >= 2
            && u64_trailing_zeros(old(board).ally(turn).kings) + 1 < 64,
        mv_tag(mov) != 6 ==> u64_trailing_zeros(old(board).ally(turn).kings) >= 2
            && u64_trailing_zeros(old(board).ally(turn).kings) + 2 < 64,
    ensures
        *final(board) == old(board).with_sets(
            turn,
            castle_unapplied(
                old(board).ally(turn),
                old(board).enemy(turn),
                mv_tag(mov) == 6,
                castle_rooks,
                enemy_double_pawn_push,
            ).0,
            castle_unapplied(
                old(board).ally(turn),
                old(board).enemy(turn),
                mv_tag(mov) == 6,
                castle_rooks,
                enemy_double_pawn_push,
            ).1,
        ),
{
    if turn == Player::White {
        unapply_castle_sets(
            &mut board.white_set,
            &mut board.black_set,
            mov,
            castle_rooks,
            enemy_double_pawn_push,
        );
    } else {
        unapply_castle_sets(
            &mut board.black_set,
            &mut board.white_set,
            mov,
            castle_rooks,
            enemy_double_pawn_push,
        );
    }
}

/// The kind a promotion tag promotes to.
pub open spec fn promo_kind(tag: int) -> PieceType {
    if tag == 1 {
        PieceType::Knight
    } else if tag == 2 {
        PieceType::Bishop
    } else if tag == 3 {
        PieceType::Rook
    } else {
        PieceType::Queen
    }
}

/// The mover's and opponent's sets after a promotion: the pawn leaves `src`,
/// the promoted kind appears on `dst`, and any capture is handled as in a
/// tag-0 move.
pub open spec fn promotion_applied(ally: PieceSet, enemy: PieceSet, mov: u16) -> (
    PieceSet,
    PieceSet,
) {
    let src = mv_src(mov) as u64;
    let dst = mv_dst(mov) as u64;
    let pk = promo_kind(mv_tag(mov));
    let a1 = PieceSet {
        pawns: clear_b(ally.pawns, src),
        occupied: set_b(clear_b(ally.occupied, src), dst),
        ..ally
    };
    let a2 = with_kind(a1, pk, set_b(kind_bb(a1, pk), dst));
    let e1 = if has_piece(enemy, dst) {
        let ck = kind_of(enemy, dst);
        let e_cap = with_kind(enemy, ck, clear_b(kind_bb(enemy, ck), dst));
        PieceSet {
            castle_rooks: if ck == PieceType::Rook {
                clear_b(enemy.castle_rooks, dst)
            } else {
                enemy.castle_rooks
            },
            occupied: clear_b(enemy.occupied, dst),
            ..e_cap
        }
    } else {
        enemy
    };
    let e2 = PieceSet { double_push_pawns: 0, ..e1 };
    (a2, e2)
}

/// The mover's and opponent's sets after reversing a promotion with its
/// snapshot.
pub open spec fn promotion_unapplied(
    ally: PieceSet,
    enemy: PieceSet,
    mov: u16,
    promoted_type: PieceType,
    dest_piece_type: Option<PieceType>,
    enemy_rooks: u64,
    enemy_double_pawn_push: u64,
) -> (PieceSet, PieceSet) {
    let src = mv_src(mov) as u64;
    let dst = mv_dst(mov) as u64;
    let a1 = with_kind(ally, promoted_type, clear_b(kind_bb(ally, promoted_type), dst));
    let a2 = PieceSet {
        pawns: set_b(a1.pawns, src),
        occupied: set_b(clear_b(a1.occupied, dst), src),
        ..a1
    };
    let e1 = match dest_piece_type {
        Some(k) => {
            let e_res = with_kind(enemy, k, set_b(kind_bb(enemy, k), dst));
            PieceSet { occupied: set_b(e_res.occupied, dst), ..e_res }
        },
        None => enemy,
    };
    let e2 = PieceSet {
        castle_rooks: enemy_rooks,
        double_push_pawns: enemy_double_pawn_push,
        ..e1
    };
    (a2, e2)
}

fn apply_promotion_sets(ally: &mut PieceSet, enemy: &mut PieceSet, mov: u16) -> (r: (
    PieceType,
    Option<PieceType>,
    u64,
    u64,
))
    requires
        1 <= mv_tag(mov) <= 4,
    ensures
        *final(ally) == promotion_applied(*old(ally), *old(enemy), mov).0,
        *final(enemy) == promotion_applied(*old(ally), *old(enemy), mov).1,
        r == (
            promo_kind(mv_tag(mov)),
            piece_kind_at(*old(enemy), mv_dst(mov) as u64),
            old(enemy).castle_rooks,
            old(enemy).double_push_pawns,
        ),
{
    proof {
        crate::move_generator::lemma_mv_bounds(mov);
    }
    let src = (mov & 0x3F) as usize;
    let dest = ((mov >> 6) & 0x3F) as usize;

    let dest_piece_type = get_piece_type(enemy, dest);

    let tag = mov >> 12;
    let promotion_type = if tag == 1 {
        PieceType::Knight
    } else if tag == 2 {
        PieceType::Bishop
    } else if tag == 3 {
        PieceType::Rook
    } else {
        PieceType::Queen
    };

    let enemy_rooks = enemy.castle_rooks;

    reset_bit(&mut ally.pawns, src);
    reset_bit(&mut ally.occupied, src);

    set_bit(&mut ally.occupied, dest);
    set_piece_bit(ally, promotion_type, dest);

    if let Some(piece_type) = dest_piece_type {
        if piece_type == PieceType::Rook {
            reset_bit(&mut enemy.castle_rooks, dest);
        }
        reset_piece_bit(enemy, piece_type, dest);
        reset_bit(&mut enemy.occupied, dest);
    }

    let enemy_double_push_pawns = enemy.double_push_pawns;
    enemy.double_push_pawns = 0;

    (promotion_type, dest_piece_type, enemy_rooks, enemy_double_push_pawns)
}

pub fn apply_promotion(board: &mut BitBoard, turn: Player, mov: u16) -> (r: (
    PieceType,
    Option<PieceType>,
    u64,
    u64,
))
    requires
        1 <= mv_tag(mov) <= 4,
    ensures
        *final(board) == old(board).with_sets(
            turn,
            promotion_applied(old(board).ally(turn), old(board).enemy(turn), mov).0,
            promotion_applied(old(board).ally(turn), old(board).enemy(turn), mov).1,
        ),
        r == (
            promo_kind(mv_tag(mov)),
            piece_kind_at(old(board).enemy(turn), mv_dst(mov) as u64),
            old(board).enemy(turn).castle_rooks,
            old(board).enemy(turn).double_push_pawns,
        ),
{
    if turn == Player::White {
        apply_promotion_sets(&mut board.white_set, &mut board.black_set, mov)
    } else {
        apply_promotion_sets(&mut board.black_set, &mut board.white_set, mov)
    }
}

fn unapply_promotion_sets(
    ally: &mut PieceSet,
    enemy: &mut PieceSet,
    mov: u16,
    promoted_type: PieceType,
    dest_piece_type: Option<PieceType>,
    enemy_rooks: u64,
    enemy_double_pawn_push: u64,
)
    ensures
        *final(ally) == promotion_unapplied(
            *old(ally),
            *old(enemy),
            mov,
            promoted_type,
            dest_piece_type,
            enemy_rooks,
            enemy_double_pawn_push,
        ).0,
        *final(enemy) == promotion_unapplied(
            *old(ally),
            *old(enemy),
            mov,
            promoted_type,
            dest_piece_type,
            enemy_rooks,
            enemy_double_pawn_push,
        ).1,
{
    proof {
        crate::move_generator::lemma_mv_bounds(mov);
    }
    let src = (mov & 0x3F) as usize;
    let dest = ((mov >> 6) & 0x3F) as usize;

    reset_piece_bit(ally, promoted_type, dest);
    set_bit(&mut ally.pawns, src);
    reset_bit(&mut ally.occupied, dest);
    set_bit(&mut ally.occupied, src);

    if let Some(dest_piece) = dest_piece_type {
        set_piece_bit(enemy, dest_piece, dest);
        set_bit(&mut enemy.occupied, dest);
    }

    enemy.castle_rooks = enemy_rooks;
    enemy.double_push_pawns = enemy_double_pawn_push;
}

pub fn unapply_promotion(
    board: &mut BitBoard,
    turn: Player,
    mov: u16,
    promoted_type: PieceType,
    dest_piece_type: Option<PieceType>,
    enemy_rooks: u64,
    enemy_double_pawn_push: u64,
)
    ensures
        *final(board) == old(board).with_sets(
            turn,
            promotion_unapplied(
                old(board).ally(turn),
                old(board).enemy(turn),
                mov,
                promoted_type,
                dest_piece_type,
                enemy_rooks,
                enemy_double_pawn_push,
            ).0,
            promotion_unapplied(
                old(board).ally(turn),
                old(board).enemy(turn),
                mov,
                promoted_type,
                dest_piece_type,
                enemy_rooks,
                enemy_double_pawn_push,
            ).1,
        ),
{
    if turn == Player::White {
        unapply_promotion_sets(
            &mut board.white_set,
            &mut board.black_set,
            mov,
            promoted_type,
            dest_piece_type,
            enemy_rooks,
            enemy_double_pawn_push,
        );
    } else {
        unapply_promotion_sets(
            &mut board.black_set,
            &mut board.white_set,
            mov,
            promoted_type,
            dest_piece_type,
            enemy_rooks,
            enemy_double_pawn_push,
        );
    }
}

/// The square of the pawn an en-passant capture removes: one rank behind the
/// destination, from the mover's side.
pub open spec fn ep_captured_sq(mov: u16, white: bool) -> int {
    if white {
        mv_dst(mov) - 8
    } else {
        mv_dst(mov) + 8
    }
}

/// The mover's and opponent's sets after an en-passant capture: the mover's
/// pawn moves diagonally onto the empty target square and the opposing pawn
/// one rank behind it disappears.
pub open spec fn ep_applied(ally: PieceSet, enemy: PieceSet, mov: u16, white: bool) -> (
    PieceSet,
    PieceSet,
) {
    let src = mv_src(mov) as u64;
    let dst = mv_dst(mov) as u64;
    let cap = ep_captured_sq(mov, white) as u64;
    let a1 = PieceSet {
        pawns: set_b(clear_b(ally.pawns, src), dst),
        occupied: set_b(clear_b(ally.occupied, src), dst),
        ..ally
    };
    let e1 = PieceSet {
        pawns: clear_b(enemy.pawns, cap),
        occupied: clear_b(enemy.occupied, cap),
        double_push_pawns: 0,
        ..enemy
    };
    (a1, e1)
}

/// The mover's and opponent's sets after reversing an en-passant capture.
pub open spec fn ep_unapplied(
    ally: PieceSet,
    enemy: PieceSet,
    mov: u16,
    white: bool,
    enemy_double_push_pawns: u64,
) -> (PieceSet, PieceSet) {
    let src = mv_src(mov) as u64;
    let dst = mv_dst(mov) as u64;
    let cap = ep_captured_sq(mov, white) as u64;
    let a1 = PieceSet {
        pawns: clear_b(set_b(ally.pawns, src), dst),
        occupied: clear_b(set_b(ally.occupied, src), dst),
        ..ally
    };
    let e1 = PieceSet {
        pawns: set_b(enemy.pawns, cap),
        occupied: set_b(enemy.occupied, cap),
        double_push_pawns: enemy_double_push_pawns,
        ..enemy
    };
    (a1, e1)
}

fn apply_enpessant_sets(ally: &mut PieceSet, enemy: &mut PieceSet, mov: u16, white: bool) -> (r: (
    u64,
    u64,
))
    requires
        white ==> mv_dst(mov) >= 8,
        !white ==> mv_dst(mov) < 56,
    ensures
        *final(ally) == ep_applied(*old(ally), *old(enemy), mov, white).0,
        *final(enemy) == ep_applied(*old(ally), *old(enemy), mov, white).1,
        r == (old(enemy).double_push_pawns, 0u64),
{
    proof {
        crate::move_generator::lemma_mv_bounds(mov);
    }
    let src = (mov & 0x3F) as usize;
    let dest = ((mov >> 6) & 0x3F) as usize;

    let capture_square = if white {
        dest - 8
    } else {
        dest + 8
    };

    reset_bit(&mut ally.pawns, src);
    set_bit(&mut ally.pawns, dest);
    reset_bit(&mut ally.occupied, src);
    set_bit(&mut ally.occupied, dest);

    reset_bit(&mut enemy.pawns, capture_square);
    reset_bit(&mut enemy.occupied, capture_square);

    let enemy_double_push_pawns = enemy.double_push_pawns;
    enemy.double_push_pawns = 0;
    (enemy_double_push_pawns, 0)
}

pub fn apply_enpessant(board: &mut BitBoard, turn: Player, mov: u16) -> (r: (u64, u64))
    requires
        turn == Player::White ==> mv_dst(mov) >= 8,
        turn == Player::Black ==> mv_dst(mov) < 56,
    ensures
        *final(board) == old(board).with_sets(
            turn,
            ep_applied(old(board).ally(turn), old(board).enemy(turn), mov, turn == Player::White).0,
            ep_applied(old(board).ally(turn), old(board).enemy(turn), mov, turn == Player::White).1,
        ),
        r == (old(board).enemy(turn).double_push_pawns, 0u64),
{
    if turn == Player::White {
        apply_enpessant_sets(&mut board.white_set, &mut board.black_set, mov, true)
    } else {
        apply_enpessant_sets(&mut board.black_set, &mut board.white_set, mov, false)
    }
}

fn unapply_enpessant_sets(
    ally: &mut PieceSet,
    enemy: &mut PieceSet,
    mov: u16,
    white: bool,
    enemy_double_push_pawns: u64,
)
    requires
        white ==> mv_dst(mov) >= 8,
        !white ==> mv_dst(mov) < 56,
    ensures
        *final(ally) == ep_unapplied(*old(ally), *old(enemy), mov, white, enemy_double_push_pawns).0,
        *final(enemy) == ep_unapplied(
            *old(ally),
            *old(enemy),
            mov,
            white,
            enemy_double_push_pawns,
        ).1,
{
    proof {
        crate::move_generator::lemma_mv_bounds(mov);
    }
    let src = (mov & 0x3F) as usize;
    let dest = ((mov >> 6) & 0x3F) as usize;

    let capture_square = if white {
        dest - 8
    } else {
        dest + 8
    };

    set_bit(&mut ally.pawns, src);
    set_bit(&mut ally.occupied, src);

    reset_bit(&mut ally.pawns, dest);
    reset_bit(&mut ally.occupied, dest);

    set_bit(&mut enemy.pawns, capture_square);
    set_bit(&mut enemy.occupied, capture_square);

    enemy.double_push_pawns = enemy_double_push_pawns;
}

pub fn unpply_enpessant(board: &mut BitBoard, turn: Player, mov: u16, enemy_double_push_pawns: u64)
    requires
        turn == Player::White ==> mv_dst(mov) >= 8,
        turn == Player::Black ==> mv_dst(mov) < 56,
    ensures
        *final(board) == old(board).with_sets(
            turn,
            ep_unapplied(
                old(board).ally(turn),
                old(board).enemy(turn),
                mov,
                turn == Player::White,
                enemy_double_push_pawns,
            ).0,
            ep_unapplied(
                old(board).ally(turn),
                old(board).enemy(turn),
                mov,
                turn == Player::White,
                enemy_double_push_pawns,
            ).1,
        ),
{
    if turn == Player::White {
        unapply_enpessant_sets(&mut board.white_set, &mut board.black_set, mov, true, enemy_double_push_pawns);
    } else {
        unapply_enpessant_sets(&mut board.black_set, &mut board.white_set, mov, false, enemy_double_push_pawns);
    }
}

/// The en-passant target square a double push marks: one rank behind the
/// destination, from the pusher's side.
pub open spec fn dpp_mark_sq(mov: u16, white: bool) -> int {
    if white {
        mv_dst(mov) - 8
    } else {
        mv_dst(mov) + 8
    }
}

/// The mover's and opponent's sets after a double pawn push: the pawn
/// advances two ranks and the square it passed over is marked for en
/// passant.
pub open spec fn dpp_applied(ally: PieceSet, enemy: PieceSet, mov: u16, white: bool) -> (
    PieceSet,
    PieceSet,
) {
    let src = mv_src(mov) as u64;
    let dst = mv_dst(mov) as u64;
    let a1 = PieceSet {
        pawns: set_b(clear_b(ally.pawns, src), dst),
        occupied: set_b(clear_b(ally.occupied, src), dst),
        double_push_pawns: 1u64 << (dpp_mark_sq(mov, white) as u64),
        ..ally
    };
    let e1 = PieceSet { double_push_pawns: 0, ..enemy };
    (a1, e1)
}

/// The mover's and opponent's sets after reversing a double pawn push.
pub open spec fn dpp_unapplied(
    ally: PieceSet,
    enemy: PieceSet,
    mov: u16,
    enemy_double_pawn_push: u64,
) -> (PieceSet, PieceSet) {
    let src = mv_src(mov) as u64;
    let dst = mv_dst(mov) as u64;
    let a1 = PieceSet {
        pawns: set_b(clear_b(ally.pawns, dst), src),
        occupied: set_b(clear_b(ally.occupied, dst), src),
        double_push_pawns: 0,
        ..ally
    };
    let e1 = PieceSet { double_push_pawns: enemy_double_pawn_push, ..enemy };
    (a1, e1)
}

fn apply_double_pawn_push_sets(ally: &mut PieceSet, enemy: &mut PieceSet, mov: u16, white: bool) -> (r:
    u64)
    requires
        white ==> mv_dst(mov) >= 8,
        !white ==> mv_dst(mov) < 56,
    ensures
        *final(ally) == dpp_applied(*old(ally), *old(enemy), mov, white).0,
        *final(enemy) == dpp_applied(*old(ally), *old(enemy), mov, white).1,
        r == old(enemy).double_push_pawns,
{
    proof {
        crate::move_generator::lemma_mv_bounds(mov);
    }
    let src = (mov & 0x3F) as usize;
    let dest = ((mov >> 6) & 0x3F) as usize;

    let double_push_pawns = if white {
        1u64 << (dest - 8)
    } else {
        1u64 << (dest + 8)
    };

    reset_bit(&mut ally.pawns, src);
    reset_bit(&mut ally.occupied, src);

    set_bit(&mut ally.pawns, dest);
    set_bit(&mut ally.occupied, dest);
    ally.double_push_pawns = double_push_pawns;

    let enemy_double_push_pawns = enemy.double_push_pawns;
    enemy.double_push_pawns = 0;
    enemy_double_push_pawns
}

pub fn apply_double_pawn_push(board: &mut BitBoard, turn: Player, mov: u16) -> (r: u64)
    requires
        turn == Player::White ==> mv_dst(mov) >= 8,
        turn == Player::Black ==> mv_dst(mov) < 56,
    ensures
        *final(board) == old(board).with_sets(
            turn,
            dpp_applied(old(board).ally(turn), old(board).enemy(turn), mov, turn == Player::White).0,
            dpp_applied(old(board).ally(turn), old(board).enemy(turn), mov, turn == Player::White).1,
        ),
        r == old(board).enemy(turn).double_push_pawns,
{
    if turn == Player::White {
        apply_double_pawn_push_sets(&mut board.white_set, &mut board.black_set, mov, true)
    } else {
        apply_double_pawn_push_sets(&mut board.black_set, &mut board.white_set, mov, false)
    }
}

fn unapply_double_pawn_push_sets(
    ally: &mut PieceSet,
    enemy: &mut PieceSet,
    mov: u16,
    enemy_double_pawn_push: u64,
)
    ensures
        *final(ally) == dpp_unapplied(*old(ally), *old(enemy), mov, enemy_double_pawn_push).0,
        *final(enemy) == dpp_unapplied(*old(ally), *old(enemy), mov, enemy_double_pawn_push).1,
{
    proof {
        crate::move_generator::lemma_mv_bounds(mov);
    }
    let src = (mov & 0x3F) as usize;
    let dest = ((mov >> 6) & 0x3F) as usize;

    reset_bit(&mut ally.pawns, dest);
    reset_bit(&mut ally.occupied, dest);

    set_bit(&mut ally.pawns, src);
    enemy.double_push_pawns = enemy_double_pawn_push;
    set_bit(&mut ally.occupied, src);
    ally.double_push_pawns = 0;
}

pub fn unapply_double_pawn_push(
    board: &mut BitBoard,
    turn: Player,
    mov: u16,
    enemy_double_pawn_push: u64,
)
    ensures
        *final(board) == old(board).with_sets(
            turn,
            dpp_unapplied(
                old(board).ally(turn),
                old(board).enemy(turn),
                mov,
                enemy_double_pawn_push,
            ).0,
            dpp_unapplied(
                old(board).ally(turn),
                old(board).enemy(turn),
                mov,
                enemy_double_pawn_push,
            ).1,
        ),
{
    if turn == Player::White {
        unapply_double_pawn_push_sets(
            &mut board.white_set,
            &mut board.black_set,
            mov,
            enemy_double_pawn_push,
        );
    } else {
        unapply_double_pawn_push_sets(
            &mut board.black_set,
            &mut board.white_set,
            mov,
            enemy_double_pawn_push,
        );
    }
}

/// Occupancy agrees with the kind bitboards, square by square.
pub proof fn lemma_occupied_bit(p: PieceSet, i: u64)
    requires
        i < 64,
        p.occupied_exact(),
    ensures
        bit(p.occupied, i) == has_piece(p, i),
{
    crate::utils::lemma_or6_bit(p.pawns, p.knights, p.bishops, p.rooks, p.queens, p.kings, i);
}

/// What a tag-0 move needs of the position for its application to be
/// reversible: distinct squares, a mover on the source, and a destination
/// free of allied pieces.
pub open spec fn normal_pre(ally: PieceSet, mov: u16) -> bool {
    &&& mv_src(mov) != mv_dst(mov)
    &&& has_piece(ally, mv_src(mov) as u64)
    &&& !bit(ally.occupied, mv_dst(mov) as u64)
}

/// Applying a tag-0 move and reversing it with its own snapshot restores
/// both piece sets exactly.
pub proof fn lemma_normal_round_trip(ally: PieceSet, enemy: PieceSet, mov: u16)
    requires
        ally.wf(),
        enemy.wf(),
        normal_pre(ally, mov),
    ensures
        normal_unapplied(
            normal_applied(ally, enemy, mov).0,
            normal_applied(ally, enemy, mov).1,
            mov,
            normal_undo(ally, enemy, mov).0,
            normal_undo(ally, enemy, mov).1,
            normal_undo(ally, enemy, mov).2,
            normal_undo(ally, enemy, mov).3,
            normal_undo(ally, enemy, mov).4,
        ).0 == ally,
        normal_unapplied(
            normal_applied(ally, enemy, mov).0,
            normal_applied(ally, enemy, mov).1,
            mov,
            normal_undo(ally, enemy, mov).0,
            normal_undo(ally, enemy, mov).1,
            normal_undo(ally, enemy, mov).2,
            normal_undo(ally, enemy, mov).3,
            normal_undo(ally, enemy, mov).4,
        ).1 == enemy,
{
    crate::move_generator::lemma_mv_bounds(mov);
    let src = mv_src(mov) as u64;
    let dst = mv_dst(mov) as u64;
    let k = kind_of(ally, src);
    lemma_occupied_bit(ally, src);
    lemma_occupied_bit(ally, dst);
    crate::utils::lemma_move_bit_round_trip(kind_bb(ally, k), src, dst);
    crate::utils::lemma_move_bit_round_trip(ally.occupied, src, dst);
    if has_piece(enemy, dst) {
        let ck = kind_of(enemy, dst);
        lemma_occupied_bit(enemy, dst);
        crate::utils::lemma_clear_then_set(kind_bb(enemy, ck), dst);
        crate::utils::lemma_clear_then_set(enemy.occupied, dst);
    }
}

/// What a promotion needs to be reversible: a promotion tag, distinct
/// squares, the pawn on the source, and a destination free of allied
/// pieces.
pub open spec fn promotion_pre(ally: PieceSet, mov: u16) -> bool {
    &&& 1 <= mv_tag(mov) <= 4
    &&& mv_src(mov) != mv_dst(mov)
    &&& bit(ally.pawns, mv_src(mov) as u64)
    &&& !bit(ally.occupied, mv_dst(mov) as u64)
}

/// Applying a promotion and reversing it with its own snapshot restores
/// both piece sets exactly.
pub proof fn lemma_promotion_round_trip(ally: PieceSet, enemy: PieceSet, mov: u16)
    requires
        ally.wf(),
        enemy.wf(),
        promotion_pre(ally, mov),
    ensures
        promotion_unapplied(
            promotion_applied(ally, enemy, mov).0,
            promotion_applied(ally, enemy, mov).1,
            mov,
            promo_kind(mv_tag(mov)),
            piece_kind_at(enemy, mv_dst(mov) as u64),
            enemy.castle_rooks,
            enemy.double_push_pawns,
        ).0 == ally,
        promotion_unapplied(
            promotion_applied(ally, enemy, mov).0,
            promotion_applied(ally, enemy, mov).1,
            mov,
            promo_kind(mv_tag(mov)),
            piece_kind_at(enemy, mv_dst(mov) as u64),
            enemy.castle_rooks,
            enemy.double_push_pawns,
        ).1 == enemy,
{
    crate::move_generator::lemma_mv_bounds(mov);
    let src = mv_src(mov) as u64;
    let dst = mv_dst(mov) as u64;
    let pk = promo_kind(mv_tag(mov));
    lemma_occupied_bit(ally, dst);
    crate::utils::lemma_clear_then_set(ally.pawns, src);
    crate::utils::lemma_set_then_clear(kind_bb(ally, pk), dst);
    lemma_occupied_bit(ally, src);
    crate::utils::lemma_move_bit_round_trip(ally.occupied, src, dst);
    if has_piece(enemy, dst) {
        let ck = kind_of(enemy, dst);
        lemma_occupied_bit(enemy, dst);
        crate::utils::lemma_clear_then_set(kind_bb(enemy, ck), dst);
        crate::utils::lemma_clear_then_set(enemy.occupied, dst);
    }
}

/// What an en-passant capture needs to be reversible: distinct squares, the
/// capturing pawn on the source, an empty destination, the captured pawn
/// one rank behind the destination, and a destination rank with room for
/// that square.
pub open spec fn ep_pre(ally: PieceSet, enemy: PieceSet, mov: u16, white: bool) -> bool {
    &&& mv_src(mov) != mv_dst(mov)
    &&& bit(ally.pawns, mv_src(mov) as u64)
    &&& !bit(ally.occupied, mv_dst(mov) as u64)
    &&& (if white {
        mv_dst(mov) >= 8
    } else {
        mv_dst(mov) < 56
    })
    &&& bit(enemy.pawns, ep_captured_sq(mov, white) as u64)
}

/// Applying an en-passant capture and reversing it with its own snapshot
/// restores both piece sets exactly.
pub proof fn lemma_ep_round_trip(ally: PieceSet, enemy: PieceSet, mov: u16, white: bool)
    requires
        ally.wf(),
        enemy.wf(),
        ep_pre(ally, enemy, mov, white),
    ensures
        ep_unapplied(
            ep_applied(ally, enemy, mov, white).0,
            ep_applied(ally, enemy, mov, white).1,
            mov,
            white,
            enemy.double_push_pawns,
        ).0 == ally,
        ep_unapplied(
            ep_applied(ally, enemy, mov, white).0,
            ep_applied(ally, enemy, mov, white).1,
            mov,
            white,
            enemy.double_push_pawns,
        ).1 == enemy,
{
    crate::move_generator::lemma_mv_bounds(mov);
    let src = mv_src(mov) as u64;
    let dst = mv_dst(mov) as u64;
    let cap = ep_captured_sq(mov, white) as u64;
    lemma_occupied_bit(ally, src);
    lemma_occupied_bit(ally, dst);
    crate::utils::lemma_move_bit_round_trip_rev(ally.pawns, src, dst);
    crate::utils::lemma_move_bit_round_trip_rev(ally.occupied, src, dst);
    lemma_occupied_bit(enemy, cap);
    crate::utils::lemma_clear_then_set(enemy.pawns, cap);
    crate::utils::lemma_clear_then_set(enemy.occupied, cap);
}

/// What a double pawn push needs to be reversible: distinct squares, the
/// pawn on the source, an empty destination with room for the passed-over
/// square, and no stale en-passant mark of the mover's own.
pub open spec fn dpp_pre(ally: PieceSet, mov: u16, white: bool) -> bool {
    &&& mv_src(mov) != mv_dst(mov)
    &&& bit(ally.pawns, mv_src(mov) as u64)
    &&& !bit(ally.occupied, mv_dst(mov) as u64)
    &&& (if white {
        mv_dst(mov) >= 8
    } else {
        mv_dst(mov) < 56
    })
    &&& ally.double_push_pawns == 0
}

/// Applying a double pawn push and reversing it with its own snapshot
/// restores both piece sets exactly.
pub proof fn lemma_dpp_round_trip(ally: PieceSet, enemy: PieceSet, mov: u16, white: bool)
    requires
        ally.wf(),
        enemy.wf(),
        dpp_pre(ally, mov, white),
    ensures
        dpp_unapplied(
            dpp_applied(ally, enemy, mov, white).0,
            dpp_applied(ally, enemy, mov, white).1,
            mov,
            enemy.double_push_pawns,
        ).0 == ally,
        dpp_unapplied(
            dpp_applied(ally, enemy, mov, white).0,
            dpp_applied(ally, enemy, mov, white).1,
            mov,
            enemy.double_push_pawns,
        ).1 == enemy,
{
    crate::move_generator::lemma_mv_bounds(mov);
    let src = mv_src(mov) as u64;
    let dst = mv_dst(mov) as u64;
    lemma_occupied_bit(ally, src);
    lemma_occupied_bit(ally, dst);
    crate::utils::lemma_move_bit_round_trip(ally.pawns, src, dst);
    crate::utils::lemma_move_bit_round_trip(ally.occupied, src, dst);
}

/// The bit-level identities behind a king-side castle and its reversal.
proof fn lemma_castle_kingside_bits(kings: u64, rooks: u64, occ: u64, h: u64)
    by (bit_vector)
    requires
        h + 3 < 64,
        kings == (1u64 << h),
        rooks & (1u64 << ((h + 3) as u64)) != 0,
        rooks & (1u64 << ((h + 1) as u64)) == 0,
        occ & (1u64 << h) != 0,
        occ & (1u64 << ((h + 3) as u64)) != 0,
        occ & (1u64 << ((h + 1) as u64)) == 0,
        occ & (1u64 << ((h + 2) as u64)) == 0,
    ensures
        ((kings & !(1u64 << h)) | (1u64 << ((h + 2) as u64))) == (1u64 << ((h + 2) as u64)),
        (((1u64 << ((h + 2) as u64)) & !(1u64 << ((h + 2) as u64))) | (1u64 << ((h + 2 - 2)
            as u64))) == kings,
        ((((rooks & !(1u64 << ((h + 3) as u64))) | (1u64 << ((h + 1) as u64))) & !(1u64 << ((h + 2
            - 1) as u64))) | (1u64 << ((h + 2 + 1) as u64))) == rooks,
        ((((((((occ & !(1u64 << h)) & !(1u64 << ((h + 3) as u64))) | (1u64 << ((h + 2) as u64)))
            | (1u64 << ((h + 1) as u64))) & !(1u64 << ((h + 2) as u64))) & !(1u64 << ((h + 2 - 1)
            as u64))) | (1u64 << ((h + 2 - 2) as u64))) | (1u64 << ((h + 2 + 1) as u64))) == occ,
{
}

/// The bit-level identities behind a queen-side castle and its reversal.
proof fn lemma_castle_queenside_bits(kings: u64, rooks: u64, occ: u64, h: u64)
    by (bit_vector)
    requires
        4 <= h < 64,
        kings == (1u64 << h),
        rooks & (1u64 << ((h - 4) as u64)) != 0,
        rooks & (1u64 << ((h - 1) as u64)) == 0,
        occ & (1u64 << h) != 0,
        occ & (1u64 << ((h - 4) as u64)) != 0,
        occ & (1u64 << ((h - 1) as u64)) == 0,
        occ & (1u64 << ((h - 2) as u64)) == 0,
    ensures
        ((kings & !(1u64 << h)) | (1u64 << ((h - 2) as u64))) == (1u64 << ((h - 2) as u64)),
        (((1u64 << ((h - 2) as u64)) & !(1u64 << ((h - 2) as u64))) | (1u64 << ((h - 2 + 2)
            as u64))) == kings,
        ((((rooks & !(1u64 << ((h - 4) as u64))) | (1u64 << ((h - 1) as u64))) & !(1u64 << ((h - 2
            + 1) as u64))) | (1u64 << ((h - 2 - 2) as u64))) == rooks,
        ((((((((occ & !(1u64 << h)) & !(1u64 << ((h - 4) as u64))) | (1u64 << ((h - 2) as u64)))
            | (1u64 << ((h - 1) as u64))) & !(1u64 << ((h - 2) as u64))) & !(1u64 << ((h - 2 + 1)
            as u64))) | (1u64 << ((h - 2 - 2) as u64))) | (1u64 << ((h - 2 + 2) as u64))) == occ,
{
}

/// What a castle needs to be reversible: a lone king on `h`, the castling
/// rook in its corner, and the squares the king and rook pass over or land
/// on empty.
pub open spec fn castle_pre(ally: PieceSet, kingside: bool) -> bool {
    let h = u64_trailing_zeros(ally.kings) as u64;
    &&& ally.kings != 0
    &&& ally.kings == (1u64 << h)
    &&& (if kingside {
        &&& h + 3 < 64
        &&& bit(ally.rooks, (h + 3) as u64)
        &&& !bit(ally.rooks, (h + 1) as u64)
        &&& !bit(ally.occupied, (h + 1) as u64)
        &&& !bit(ally.occupied, (h + 2) as u64)
    } else {
        &&& h >= 4
        &&& bit(ally.rooks, (h - 4) as u64)
        &&& !bit(ally.rooks, (h - 1) as u64)
        &&& !bit(ally.occupied, (h - 1) as u64)
        &&& !bit(ally.occupied, (h - 2) as u64)
    })
}

/// Applying a castle and reversing it with its own snapshot restores both
/// piece sets exactly.
pub proof fn lemma_castle_round_trip(ally: PieceSet, enemy: PieceSet, kingside: bool)
    requires
        ally.wf(),
        enemy.wf(),
        castle_pre(ally, kingside),
    ensures
        castle_unapplied(
            castle_applied(ally, enemy, kingside).0,
            castle_applied(ally, enemy, kingside).1,
            kingside,
            ally.castle_rooks,
            enemy.double_push_pawns,
        ).0 == ally,
        castle_unapplied(
            castle_applied(ally, enemy, kingside).0,
            castle_applied(ally, enemy, kingside).1,
            kingside,
            ally.castle_rooks,
            enemy.double_push_pawns,
        ).1 == enemy,
{
    broadcast use vstd::std_specs::bits::axiom_u64_trailing_zeros;

    let h = u64_trailing_zeros(ally.kings) as u64;
    crate::utils::lemma_set_b_bit(0, h, h);
    crate::utils::lemma_or_basics(1u64 << h, 0, 0);
    assert(bit(ally.kings, h));
    lemma_occupied_bit(ally, h);
    let a1 = castle_applied(ally, enemy, kingside).0;
    if kingside {
        lemma_occupied_bit(ally, (h + 3) as u64);
        lemma_castle_kingside_bits(ally.kings, ally.rooks, ally.occupied, h);
        assert(a1.kings == (1u64 << ((h + 2) as u64)));
        crate::utils::lemma_lsb_single_bit((h + 2) as u64);
        assert(u64_trailing_zeros(a1.kings) as u64 == (h + 2) as u64);
    } else {
        lemma_occupied_bit(ally, (h - 4) as u64);
        lemma_castle_queenside_bits(ally.kings, ally.rooks, ally.occupied, h);
        assert(a1.kings == (1u64 << ((h - 2) as u64)));
        crate::utils::lemma_lsb_single_bit((h - 2) as u64);
        assert(u64_trailing_zeros(a1.kings) as u64 == (h - 2) as u64);
    }
}

/// `&` is commutative.
proof fn lemma_and_comm(a: u64, b: u64)
    by (bit_vector)
    ensures
        a & b == b & a,
{
}

/// Disjointness holds in both orientations.
pub proof fn lemma_disjoint_sym(p: PieceSet)
    requires
        p.kinds_disjoint(),
    ensures
        p.knights & p.pawns == 0,
        p.bishops & p.pawns == 0,
        p.rooks & p.pawns == 0,
        p.queens & p.pawns == 0,
        p.kings & p.pawns == 0,
        p.bishops & p.knights == 0,
        p.rooks & p.knights == 0,
        p.queens & p.knights == 0,
        p.kings & p.knights == 0,
        p.rooks & p.bishops == 0,
        p.queens & p.bishops == 0,
        p.kings & p.bishops == 0,
        p.queens & p.rooks == 0,
        p.kings & p.rooks == 0,
        p.kings & p.queens == 0,
{
    lemma_and_comm(p.pawns, p.knights);
    lemma_and_comm(p.pawns, p.bishops);
    lemma_and_comm(p.pawns, p.rooks);
    lemma_and_comm(p.pawns, p.queens);
    lemma_and_comm(p.pawns, p.kings);
    lemma_and_comm(p.knights, p.bishops);
    lemma_and_comm(p.knights, p.rooks);
    lemma_and_comm(p.knights, p.queens);
    lemma_and_comm(p.knights, p.kings);
    lemma_and_comm(p.bishops, p.rooks);
    lemma_and_comm(p.bishops, p.queens);
    lemma_and_comm(p.bishops, p.kings);
    lemma_and_comm(p.rooks, p.queens);
    lemma_and_comm(p.rooks, p.kings);
    lemma_and_comm(p.queens, p.kings);
}

/// The six-way union with any one kind pulled to the front.
proof fn lemma_union_pull(p: u64, n: u64, b: u64, r: u64, q: u64, k: u64)
    by (bit_vector)
    ensures
        p | n | b | r | q | k == n | p | b | r | q | k,
        p | n | b | r | q | k == b | p | n | r | q | k,
        p | n | b | r | q | k == r | p | n | b | q | k,
        p | n | b | r | q | k == q | p | n | b | r | k,
        p | n | b | r | q | k == k | p | n | b | r | q,
        p | n | b | r | q | k == p | b | n | r | q | k,
        p | n | b | r | q | k == p | r | n | b | q | k,
        p | n | b | r | q | k == p | q | n | b | r | k,
        p | n | b | r | q | k == p | k | n | b | r | q,
{
}

/// Moving a bit of the front component within a six-way union: the union's
/// bit moves with it, and disjointness from the rest survives.
proof fn lemma_move_in_rest5(m: u64, o1: u64, o2: u64, o3: u64, o4: u64, o5: u64, s: u64, d: u64)
    by (bit_vector)
    requires
        s < 64,
        d < 64,
        s != d,
        m & (1u64 << s) != 0,
        m & o1 == 0,
        m & o2 == 0,
        m & o3 == 0,
        m & o4 == 0,
        m & o5 == 0,
        (m | o1 | o2 | o3 | o4 | o5) & (1u64 << d) == 0,
    ensures
        (((m | o1 | o2 | o3 | o4 | o5) & !(1u64 << s)) | (1u64 << d)) == ((m & !(1u64 << s)) | (
        1u64 << d)) | o1 | o2 | o3 | o4 | o5,
        ((m & !(1u64 << s)) | (1u64 << d)) & o1 == 0 && o1 & ((m & !(1u64 << s)) | (1u64 << d))
            == 0,
        ((m & !(1u64 << s)) | (1u64 << d)) & o2 == 0 && o2 & ((m & !(1u64 << s)) | (1u64 << d))
            == 0,
        ((m & !(1u64 << s)) | (1u64 << d)) & o3 == 0 && o3 & ((m & !(1u64 << s)) | (1u64 << d))
            == 0,
        ((m & !(1u64 << s)) | (1u64 << d)) & o4 == 0 && o4 & ((m & !(1u64 << s)) | (1u64 << d))
            == 0,
        ((m & !(1u64 << s)) | (1u64 << d)) & o5 == 0 && o5 & ((m & !(1u64 << s)) | (1u64 << d))
            == 0,
{
}

/// Clearing a bit of the front component within a six-way union.
proof fn lemma_clear_in_rest5(m: u64, o1: u64, o2: u64, o3: u64, o4: u64, o5: u64, d: u64)
    by (bit_vector)
    requires
        d < 64,
        m & (1u64 << d) != 0,
        m & o1 == 0,
        m & o2 == 0,
        m & o3 == 0,
        m & o4 == 0,
        m & o5 == 0,
    ensures
        ((m | o1 | o2 | o3 | o4 | o5) & !(1u64 << d)) == (m & !(1u64 << d)) | o1 | o2 | o3 | o4
            | o5,
        (m & !(1u64 << d)) & o1 == 0 && o1 & (m & !(1u64 << d)) == 0,
        (m & !(1u64 << d)) & o2 == 0 && o2 & (m & !(1u64 << d)) == 0,
        (m & !(1u64 << d)) & o3 == 0 && o3 & (m & !(1u64 << d)) == 0,
        (m & !(1u64 << d)) & o4 == 0 && o4 & (m & !(1u64 << d)) == 0,
        (m & !(1u64 << d)) & o5 == 0 && o5 & (m & !(1u64 << d)) == 0,
{
}

/// A pawn leaving `s` while the second component gains `d`, inside a
/// six-way union.
proof fn lemma_promo_in_rest4(
    pw: u64,
    m2: u64,
    o1: u64,
    o2: u64,
    o3: u64,
    o4: u64,
    s: u64,
    d: u64,
)
    by (bit_vector)
    requires
        s < 64,
        d < 64,
        s != d,
        pw & (1u64 << s) != 0,
        pw & m2 == 0,
        pw & o1 == 0,
        pw & o2 == 0,
        pw & o3 == 0,
        pw & o4 == 0,
        m2 & o1 == 0,
        m2 & o2 == 0,
        m2 & o3 == 0,
        m2 & o4 == 0,
        (pw | m2 | o1 | o2 | o3 | o4) & (1u64 << d) == 0,
    ensures
        (((pw | m2 | o1 | o2 | o3 | o4) & !(1u64 << s)) | (1u64 << d)) == (pw & !(1u64 << s)) | (
        m2 | (1u64 << d)) | o1 | o2 | o3 | o4,
        (pw & !(1u64 << s)) & (m2 | (1u64 << d)) == 0 && (m2 | (1u64 << d)) & (pw & !(1u64 << s))
            == 0,
        (pw & !(1u64 << s)) & o1 == 0 && o1 & (pw & !(1u64 << s)) == 0,
        (pw & !(1u64 << s)) & o2 == 0 && o2 & (pw & !(1u64 << s)) == 0,
        (pw & !(1u64 << s)) & o3 == 0 && o3 & (pw & !(1u64 << s)) == 0,
        (pw & !(1u64 << s)) & o4 == 0 && o4 & (pw & !(1u64 << s)) == 0,
        (m2 | (1u64 << d)) & o1 == 0 && o1 & (m2 | (1u64 << d)) == 0,
        (m2 | (1u64 << d)) & o2 == 0 && o2 & (m2 | (1u64 << d)) == 0,
        (m2 | (1u64 << d)) & o3 == 0 && o3 & (m2 | (1u64 << d)) == 0,
        (m2 | (1u64 << d)) & o4 == 0 && o4 & (m2 | (1u64 << d)) == 0,
{
}

/// Castling rights stay within the rooks across a rook move, a rook
/// capture, a rook promotion, and a full revocation.
proof fn lemma_castle_sub_facts(cr: u64, rooks: u64, s: u64, d: u64)
    by (bit_vector)
    requires
        s < 64,
        d < 64,
        cr & !rooks == 0,
    ensures
        (cr & !(1u64 << s)) & !((rooks & !(1u64 << s)) | (1u64 << d)) == 0,
        (cr & !(1u64 << d)) & !(rooks & !(1u64 << d)) == 0,
        cr & !(rooks | (1u64 << d)) == 0,
        0u64 & !rooks == 0,
{
}

/// Moving one kind's bit from `s` to an empty square `d` keeps the kinds
/// disjoint and the occupancy exact.
proof fn lemma_move_kind_wf(p: PieceSet, s: u64, d: u64, t: PieceType)
    requires
        p.wf(),
        s < 64,
        d < 64,
        s != d,
        bit(kind_bb(p, t), s),
        !bit(p.occupied, d),
    ensures
        ({
            let v = with_kind(p, t, set_b(clear_b(kind_bb(p, t), s), d));
            let v2 = PieceSet { occupied: set_b(clear_b(p.occupied, s), d), ..v };
            v2.kinds_disjoint() && v2.occupied_exact()
        }),
{
    lemma_disjoint_sym(p);
    lemma_union_pull(p.pawns, p.knights, p.bishops, p.rooks, p.queens, p.kings);
    match t {
        PieceType::Pawn => {
            lemma_move_in_rest5(p.pawns, p.knights, p.bishops, p.rooks, p.queens, p.kings, s, d);
        },
        PieceType::Knight => {
            lemma_move_in_rest5(p.knights, p.pawns, p.bishops, p.rooks, p.queens, p.kings, s, d);
            lemma_union_pull(
                p.pawns,
                set_b(clear_b(p.knights, s), d),
                p.bishops,
                p.rooks,
                p.queens,
                p.kings,
            );
        },
        PieceType::Bishop => {
            lemma_move_in_rest5(p.bishops, p.pawns, p.knights, p.rooks, p.queens, p.kings, s, d);
            lemma_union_pull(
                p.pawns,
                p.knights,
                set_b(clear_b(p.bishops, s), d),
                p.rooks,
                p.queens,
                p.kings,
            );
        },
        PieceType::Rook => {
            lemma_move_in_rest5(p.rooks, p.pawns, p.knights, p.bishops, p.queens, p.kings, s, d);
            lemma_union_pull(
                p.pawns,
                p.knights,
                p.bishops,
                set_b(clear_b(p.rooks, s), d),
                p.queens,
                p.kings,
            );
        },
        PieceType::Queen => {
            lemma_move_in_rest5(p.queens, p.pawns, p.knights, p.bishops, p.rooks, p.kings, s, d);
            lemma_union_pull(
                p.pawns,
                p.knights,
                p.bishops,
                p.rooks,
                set_b(clear_b(p.queens, s), d),
                p.kings,
            );
        },
        PieceType::King => {
            lemma_move_in_rest5(p.kings, p.pawns, p.knights, p.bishops, p.rooks, p.queens, s, d);
            lemma_union_pull(
                p.pawns,
                p.knights,
                p.bishops,
                p.rooks,
                p.queens,
                set_b(clear_b(p.kings, s), d),
            );
        },
    }
}

/// Removing one kind's bit at `d` keeps the kinds disjoint and the
/// occupancy exact.
proof fn lemma_clear_kind_wf(p: PieceSet, d: u64, t: PieceType)
    requires
        p.wf(),
        d < 64,
        bit(kind_bb(p, t), d),
    ensures
        ({
            let v = with_kind(p, t, clear_b(kind_bb(p, t), d));
            let v2 = PieceSet { occupied: clear_b(p.occupied, d), ..v };
            v2.kinds_disjoint() && v2.occupied_exact()
        }),
{
    lemma_disjoint_sym(p);
    lemma_union_pull(p.pawns, p.knights, p.bishops, p.rooks, p.queens, p.kings);
    match t {
        PieceType::Pawn => {
            lemma_clear_in_rest5(p.pawns, p.knights, p.bishops, p.rooks, p.queens, p.kings, d);
        },
        PieceType::Knight => {
            lemma_clear_in_rest5(p.knights, p.pawns, p.bishops, p.rooks, p.queens, p.kings, d);
            lemma_union_pull(
                p.pawns,
                clear_b(p.knights, d),
                p.bishops,
                p.rooks,
                p.queens,
                p.kings,
            );
        },
        PieceType::Bishop => {
            lemma_clear_in_rest5(p.bishops, p.pawns, p.knights, p.rooks, p.queens, p.kings, d);
            lemma_union_pull(
                p.pawns,
                p.knights,
                clear_b(p.bishops, d),
                p.rooks,
                p.queens,
                p.kings,
            );
        },
        PieceType::Rook => {
            lemma_clear_in_rest5(p.rooks, p.pawns, p.knights, p.bishops, p.queens, p.kings, d);
            lemma_union_pull(
                p.pawns,
                p.knights,
                p.bishops,
                clear_b(p.rooks, d),
                p.queens,
                p.kings,
            );
        },
        PieceType::Queen => {
            lemma_clear_in_rest5(p.queens, p.pawns, p.knights, p.bishops, p.rooks, p.kings, d);
            lemma_union_pull(
                p.pawns,
                p.knights,
                p.bishops,
                p.rooks,
                clear_b(p.queens, d),
                p.kings,
            );
        },
        PieceType::King => {
            lemma_clear_in_rest5(p.kings, p.pawns, p.knights, p.bishops, p.rooks, p.queens, d);
            lemma_union_pull(
                p.pawns,
                p.knights,
                p.bishops,
                p.rooks,
                p.queens,
                clear_b(p.kings, d),
            );
        },
    }
}

/// A pawn leaving `s` while kind `pk` gains the empty square `d` keeps the
/// kinds disjoint and the occupancy exact.
proof fn lemma_promo_kind_wf(p: PieceSet, s: u64, d: u64, pk: PieceType)
    requires
        p.wf(),
        s < 64,
        d < 64,
        s != d,
        bit(p.pawns, s),
        !bit(p.occupied, d),
        pk == PieceType::Knight || pk == PieceType::Bishop || pk == PieceType::Rook || pk
            == PieceType::Queen,
    ensures
        ({
            let a1 = PieceSet {
                pawns: clear_b(p.pawns, s),
                occupied: set_b(clear_b(p.occupied, s), d),
                ..p
            };
            let a2 = with_kind(a1, pk, set_b(kind_bb(a1, pk), d));
            a2.kinds_disjoint() && a2.occupied_exact()
        }),
{
    lemma_disjoint_sym(p);
    lemma_union_pull(p.pawns, p.knights, p.bishops, p.rooks, p.queens, p.kings);
    match pk {
        PieceType::Knight => {
            lemma_promo_in_rest4(p.pawns, p.knights, p.bishops, p.rooks, p.queens, p.kings, s, d);
        },
        PieceType::Bishop => {
            lemma_promo_in_rest4(p.pawns, p.bishops, p.knights, p.rooks, p.queens, p.kings, s, d);
            lemma_union_pull(
                clear_b(p.pawns, s),
                p.knights,
                set_b(p.bishops, d),
                p.rooks,
                p.queens,
                p.kings,
            );
        },
        PieceType::Rook => {
            lemma_promo_in_rest4(p.pawns, p.rooks, p.knights, p.bishops, p.queens, p.kings, s, d);
            lemma_union_pull(
                clear_b(p.pawns, s),
                p.knights,
                p.bishops,
                set_b(p.rooks, d),
                p.queens,
                p.kings,
            );
        },
        PieceType::Queen => {
            lemma_promo_in_rest4(p.pawns, p.queens, p.knights, p.bishops, p.rooks, p.kings, s, d);
            lemma_union_pull(
                clear_b(p.pawns, s),
                p.knights,
                p.bishops,
                p.rooks,
                set_b(p.queens, d),
                p.kings,
            );
        },
        _ => {
        },
    }
}

/// Kind disjointness and exact occupancy across a king-side castle.
proof fn lemma_castle_kingside_wf_bits(
    p: u64,
    n: u64,
    bs: u64,
    r: u64,
    q: u64,
    k: u64,
    occ: u64,
    h: u64,
)
    by (bit_vector)
    requires
        h + 3 < 64,
        k == (1u64 << h),
        occ == p | n | bs | r | q | k,
        r & (1u64 << ((h + 3) as u64)) != 0,
        occ & (1u64 << ((h + 1) as u64)) == 0,
        occ & (1u64 << ((h + 2) as u64)) == 0,
        p & n == 0 && p & bs == 0 && p & r == 0 && p & q == 0 && p & k == 0,
        n & bs == 0 && n & r == 0 && n & q == 0 && n & k == 0,
        bs & r == 0 && bs & q == 0 && bs & k == 0,
        r & q == 0 && r & k == 0,
        q & k == 0,
    ensures
        ({
            let r2 = (r & !(1u64 << ((h + 3) as u64))) | (1u64 << ((h + 1) as u64));
            let k2 = (k & !(1u64 << h)) | (1u64 << ((h + 2) as u64));
            let occ2 = ((((occ & !(1u64 << h)) & !(1u64 << ((h + 3) as u64))) | (1u64 << ((h + 2)
                as u64))) | (1u64 << ((h + 1) as u64)));
            occ2 == (p | n | bs | r2 | q | k2) && p & r2 == 0 && p & k2 == 0 && n & r2 == 0 && n
                & k2 == 0 && bs & r2 == 0 && bs & k2 == 0 && r2 & q == 0 && r2 & k2 == 0 && q & k2
                == 0
        }),
{
}

/// Kind disjointness and exact occupancy across a queen-side castle.
proof fn lemma_castle_queenside_wf_bits(
    p: u64,
    n: u64,
    bs: u64,
    r: u64,
    q: u64,
    k: u64,
    occ: u64,
    h: u64,
)
    by (bit_vector)
    requires
        4 <= h < 64,
        k == (1u64 << h),
        occ == p | n | bs | r | q | k,
        r & (1u64 << ((h - 4) as u64)) != 0,
        occ & (1u64 << ((h - 1) as u64)) == 0,
        occ & (1u64 << ((h - 2) as u64)) == 0,
        p & n == 0 && p & bs == 0 && p & r == 0 && p & q == 0 && p & k == 0,
        n & bs == 0 && n & r == 0 && n & q == 0 && n & k == 0,
        bs & r == 0 && bs & q == 0 && bs & k == 0,
        r & q == 0 && r & k == 0,
        q & k == 0,
    ensures
        ({
            let r2 = (r & !(1u64 << ((h - 4) as u64))) | (1u64 << ((h - 1) as u64));
            let k2 = (k & !(1u64 << h)) | (1u64 << ((h - 2) as u64));
            let occ2 = ((((occ & !(1u64 << h)) & !(1u64 << ((h - 4) as u64))) | (1u64 << ((h - 2)
                as u64))) | (1u64 << ((h - 1) as u64)));
            occ2 == (p | n | bs | r2 | q | k2) && p & r2 == 0 && p & k2 == 0 && n & r2 == 0 && n
                & k2 == 0 && bs & r2 == 0 && bs & k2 == 0 && r2 & q == 0 && r2 & k2 == 0 && q & k2
                == 0
        }),
{
}

/// Applying any reversible move preserves both sides' invariants: the six
/// kind bitboards stay pairwise disjoint, `occupied` stays exactly their
/// union, and castling rights stay on rooks. Reversing it restores the
/// original position (see the round-trip lemmas), so the invariant holds at
/// every state of an apply/unapply stack.
pub proof fn lemma_apply_sets_wf(
    ally: PieceSet,
    enemy: PieceSet,
    mov: u16,
    turn_white: bool,
    tag: int,
)
    requires
        ally.wf(),
        enemy.wf(),
        tag == mv_tag(mov),
        1 <= tag <= 4 ==> promotion_pre(ally, mov),
        tag == 5 ==> ep_pre(ally, enemy, mov, turn_white),
        (tag == 6 || tag == 7) ==> castle_pre(ally, tag == 6),
        tag == 8 ==> dpp_pre(ally, mov, turn_white),
        (tag == 0 || tag > 8) ==> normal_pre(ally, mov),
    ensures
        1 <= tag <= 4 ==> promotion_applied(ally, enemy, mov).0.wf() && promotion_applied(
            ally,
            enemy,
            mov,
        ).1.wf(),
        tag == 5 ==> ep_applied(ally, enemy, mov, turn_white).0.wf() && ep_applied(
            ally,
            enemy,
            mov,
            turn_white,
        ).1.wf(),
        (tag == 6 || tag == 7) ==> castle_applied(ally, enemy, tag == 6).0.wf() && castle_applied(
            ally,
            enemy,
            tag == 6,
        ).1.wf(),
        tag == 8 ==> dpp_applied(ally, enemy, mov, turn_white).0.wf() && dpp_applied(
            ally,
            enemy,
            mov,
            turn_white,
        ).1.wf(),
        (tag == 0 || tag > 8) ==> normal_applied(ally, enemy, mov).0.wf() && normal_applied(
            ally,
            enemy,
            mov,
        ).1.wf(),
{
    crate::move_generator::lemma_mv_bounds(mov);
    let src = mv_src(mov) as u64;
    let dst = mv_dst(mov) as u64;
    if 1 <= tag <= 4 {
        let pk = promo_kind(tag);
        lemma_promo_kind_wf(ally, src, dst, pk);
        if pk == PieceType::Rook {
            lemma_castle_sub_facts(ally.castle_rooks, ally.rooks, src, dst);
        }
        if has_piece(enemy, dst) {
            let ck = kind_of(enemy, dst);
            lemma_clear_kind_wf(enemy, dst, ck);
            if ck == PieceType::Rook {
                lemma_castle_sub_facts(enemy.castle_rooks, enemy.rooks, dst, dst);
            }
        }
    } else if tag == 5 {
        let cap = ep_captured_sq(mov, turn_white) as u64;
        lemma_move_kind_wf(ally, src, dst, PieceType::Pawn);
        lemma_clear_kind_wf(enemy, cap, PieceType::Pawn);
    } else if tag == 6 || tag == 7 {
        let h = u64_trailing_zeros(ally.kings) as u64;
        crate::utils::lemma_set_b_bit(0, h, h);
        crate::utils::lemma_or_basics(1u64 << h, 0, 0);
        assert(bit(ally.kings, h));
        lemma_occupied_bit(ally, h);
        if tag == 6 {
            lemma_castle_kingside_wf_bits(
                ally.pawns,
                ally.knights,
                ally.bishops,
                ally.rooks,
                ally.queens,
                ally.kings,
                ally.occupied,
                h,
            );
        } else {
            lemma_castle_queenside_wf_bits(
                ally.pawns,
                ally.knights,
                ally.bishops,
                ally.rooks,
                ally.queens,
                ally.kings,
                ally.occupied,
                h,
            );
        }
        crate::utils::lemma_zero_and();
    } else if tag == 8 {
        lemma_move_kind_wf(ally, src, dst, PieceType::Pawn);
    } else {
        let k = kind_of(ally, src);
        lemma_move_kind_wf(ally, src, dst, k);
        if k == PieceType::Rook {
            lemma_castle_sub_facts(ally.castle_rooks, ally.rooks, src, dst);
        }
        if k == PieceType::King {
            lemma_castle_sub_facts(ally.castle_rooks, ally.rooks, src, dst);
        }
        if has_piece(enemy, dst) {
            let ck = kind_of(enemy, dst);
            lemma_clear_kind_wf(enemy, dst, ck);
            if ck == PieceType::Rook {
                lemma_castle_sub_facts(enemy.castle_rooks, enemy.rooks, dst, dst);
            }
        }
    }
}

} // verus!
