//! FEN input and output: the text boundary of the position.
//!
//! A record holds six space-separated fields: placement (ranks 8 down to 1,
//! digits skipping empty squares), side to move, castling rights, the
//! en-passant target square, and the halfmove and fullmove counters, which
//! are accepted but not tracked. The en-passant field marks
//! `double_push_pawns` with the target square itself, the convention the
//! move application writes.

use vstd::prelude::*;

verus! {

use crate::attack_maps::Tables;
use crate::bit_board::attacks_spec;
use crate::bit_board::BitBoard;
use crate::piece_set::PieceSet;
use crate::player::Player;
use crate::utils::bit;
use crate::utils::test_bit;
use vstd::std_specs::bits::u64_trailing_zeros;
use vstd::string::StrSliceExecFns;
use vstd::string::StringExecFns;

/// Index of the first non-space character at or after `i`.
pub open spec fn skip_spaces(s: Seq<char>, i: int) -> int
    decreases s.len() - i,
    when 0 <= i <= s.len()
{
    if i < s.len() && s[i] == ' ' {
        skip_spaces(s, i + 1)
    } else {
        i
    }
}

/// Index of the first space at or after `i`, or the end.
pub open spec fn token_end(s: Seq<char>, i: int) -> int
    decreases s.len() - i,
    when 0 <= i <= s.len()
{
    if i < s.len() && s[i] != ' ' {
        token_end(s, i + 1)
    } else {
        i
    }
}

pub proof fn lemma_skip_spaces_bounds(s: Seq<char>, i: int)
    requires
        0 <= i <= s.len(),
    ensures
        i <= skip_spaces(s, i) <= s.len(),
    decreases s.len() - i,
{
    if i < s.len() && s[i] == ' ' {
        lemma_skip_spaces_bounds(s, i + 1);
    }
}

pub proof fn lemma_token_end_bounds(s: Seq<char>, i: int)
    requires
        0 <= i <= s.len(),
    ensures
        i <= token_end(s, i) <= s.len(),
    decreases s.len() - i,
{
    if i < s.len() && s[i] != ' ' {
        lemma_token_end_bounds(s, i + 1);
    }
}

pub open spec fn is_rank_digit(c: char) -> bool {
    49 <= c as int <= 56
}

pub open spec fn digit_val(c: char) -> int {
    c as int - 48
}

/// The two piece sets with `c`'s piece added on square `sq`, or `None` for
/// a character that names no piece.
pub open spec fn place_piece(w: PieceSet, b: PieceSet, c: char, sq: u64) -> Option<
    (PieceSet, PieceSet),
> {
    if c == 'P' {
        Some(
            (
                PieceSet {
                    pawns: w.pawns | (1u64 << sq),
                    occupied: w.occupied | (1u64 << sq),
                    ..w
                },
                b,
            ),
        )
    } else if c == 'N' {
        Some(
            (
                PieceSet {
                    knights: w.knights | (1u64 << sq),
                    occupied: w.occupied | (1u64 << sq),
                    ..w
                },
                b,
            ),
        )
    } else if c == 'B' {
        Some(
            (
                PieceSet {
                    bishops: w.bishops | (1u64 << sq),
                    occupied: w.occupied | (1u64 << sq),
                    ..w
                },
                b,
            ),
        )
    } else if c == 'R' {
        Some(
            (
                PieceSet {
                    rooks: w.rooks | (1u64 << sq),
                    occupied: w.occupied | (1u64 << sq),
                    ..w
                },
                b,
            ),
        )
    } else if c == 'Q' {
        Some(
            (
                PieceSet {
                    queens: w.queens | (1u64 << sq),
                    occupied: w.occupied | (1u64 << sq),
                    ..w
                },
                b,
            ),
        )
    } else if c == 'K' {
        Some(
            (
                PieceSet {
                    kings: w.kings | (1u64 << sq),
                    occupied: w.occupied | (1u64 << sq),
                    ..w
                },
                b,
            ),
        )
    } else if c == 'p' {
        Some(
            (
                w,
                PieceSet {
                    pawns: b.pawns | (1u64 << sq),
                    occupied: b.occupied | (1u64 << sq),
                    ..b
                },
            ),
        )
    } else if c == 'n' {
        Some(
            (
                w,
                PieceSet {
                    knights: b.knights | (1u64 << sq),
                    occupied: b.occupied | (1u64 << sq),
                    ..b
                },
            ),
        )
    } else if c == 'b' {
        Some(
            (
                w,
                PieceSet {
                    bishops: b.bishops | (1u64 << sq),
                    occupied: b.occupied | (1u64 << sq),
                    ..b
                },
            ),
        )
    } else if c == 'r' {
        Some(
            (
                w,
                PieceSet {
                    rooks: b.rooks | (1u64 << sq),
                    occupied: b.occupied | (1u64 << sq),
                    ..b
                },
            ),
        )
    } else if c == 'q' {
        Some(
            (
                w,
                PieceSet {
                    queens: b.queens | (1u64 << sq),
                    occupied: b.occupied | (1u64 << sq),
                    ..b
                },
            ),
        )
    } else if c == 'k' {
        Some(
            (
                w,
                PieceSet {
                    kings: b.kings | (1u64 << sq),
                    occupied: b.occupied | (1u64 << sq),
                    ..b
                },
            ),
        )
    } else {
        None
    }
}

/// Walk the placement field from position `i` in state (`rank`, `file`),
/// returning the index one past the field and the filled sets. `None` on a
/// bad character, an over-full rank, a missing rank or file, or too many
/// ranks.
pub open spec fn parse_placement(
    s: Seq<char>,
    i: int,
    rank: int,
    file: int,
    w: PieceSet,
    b: PieceSet,
) -> Option<(int, PieceSet, PieceSet)>
    decreases s.len() - i,
    when 0 <= i <= s.len() && 0 <= rank <= 7 && 0 <= file <= 8
{
    if i >= s.len() || s[i] == ' ' {
        if rank == 0 && file == 8 {
            Some((i, w, b))
        } else {
            None
        }
    } else {
        let c = s[i];
        if c == '/' {
            if rank > 0 && file == 8 {
                parse_placement(s, i + 1, rank - 1, 0, w, b)
            } else {
                None
            }
        } else if is_rank_digit(c) {
            if file + digit_val(c) > 8 {
                None
            } else {
                parse_placement(s, i + 1, rank, file + digit_val(c), w, b)
            }
        } else if file >= 8 {
            None
        } else {
            match place_piece(w, b, c, (rank * 8 + file) as u64) {
                Some((w2, b2)) => parse_placement(s, i + 1, rank, file + 1, w2, b2),
                None => None,
            }
        }
    }
}

/// The side-to-move field: a lone `w` or `b`.
pub open spec fn parse_side(s: Seq<char>, i: int) -> Option<(int, Player)> {
    let j = skip_spaces(s, i);
    if j < s.len() && (j + 1 == s.len() || s[j + 1] == ' ') {
        if s[j] == 'w' {
            Some((j + 1, Player::White))
        } else if s[j] == 'b' {
            Some((j + 1, Player::Black))
        } else {
            None
        }
    } else {
        None
    }
}

/// The castling field: each of `KQkq` marks its corner rook; all other
/// characters, `-` included, mark nothing.
pub open spec fn parse_castling_chars(
    s: Seq<char>,
    i: int,
    end: int,
    w: PieceSet,
    b: PieceSet,
) -> (PieceSet, PieceSet)
    decreases end - i,
    when 0 <= i && i <= end <= s.len()
{
    if i >= end {
        (w, b)
    } else {
        let c = s[i];
        let w2 = if c == 'K' {
            PieceSet { castle_rooks: w.castle_rooks | (1u64 << 7), ..w }
        } else if c == 'Q' {
            PieceSet { castle_rooks: w.castle_rooks | 1u64, ..w }
        } else {
            w
        };
        let b2 = if c == 'k' {
            PieceSet { castle_rooks: b.castle_rooks | (1u64 << 63), ..b }
        } else if c == 'q' {
            PieceSet { castle_rooks: b.castle_rooks | (1u64 << 56), ..b }
        } else {
            b
        };
        parse_castling_chars(s, i + 1, end, w2, b2)
    }
}

/// The en-passant field: `-`, or a target square on rank 3 or 6. The
/// pushing side's `double_push_pawns` receives the target square's bit.
pub open spec fn parse_ep(s: Seq<char>, i: int, w: PieceSet, b: PieceSet) -> Option<
    (int, PieceSet, PieceSet),
> {
    let j = skip_spaces(s, i);
    let e = token_end(s, j);
    if j >= s.len() {
        None
    } else if e - j == 1 && s[j] == '-' {
        Some((e, w, b))
    } else if e - j == 2 {
        let fc = s[j] as int - 97;
        if 0 <= fc < 8 {
            if s[j + 1] == '3' {
                Some(
                    (e, PieceSet { double_push_pawns: 1u64 << ((16 + fc) as u64), ..w }, b),
                )
            } else if s[j + 1] == '6' {
                Some(
                    (e, w, PieceSet { double_push_pawns: 1u64 << ((40 + fc) as u64), ..b }),
                )
            } else {
                None
            }
        } else {
            None
        }
    } else {
        None
    }
}

/// Two more nonempty fields (halfmove and fullmove) follow position `i`.
pub open spec fn has_two_more_tokens(s: Seq<char>, i: int) -> bool {
    let j = skip_spaces(s, i);
    if j >= s.len() {
        false
    } else {
        skip_spaces(s, token_end(s, j)) < s.len()
    }
}

/// The board with `turn`'s attack map regenerated.
pub open spec fn with_attack_map(b: BitBoard, turn: Player) -> BitBoard {
    b.with_sets(turn, PieceSet { attack_map: attacks_spec(b, turn), ..b.ally(turn) }, b.enemy(turn))
}

/// The position a FEN record denotes: placement, side, castling and
/// en-passant fields parsed in order, two counter fields checked for
/// presence, and both attack maps freshly derived.
pub open spec fn fen_parse_spec(s: Seq<char>) -> Option<BitBoard> {
    match parse_placement(s, 0, 7, 0, PieceSet::spec_empty(), PieceSet::spec_empty()) {
        None => None,
        Some((i1, w1, b1)) => match parse_side(s, i1) {
            None => None,
            Some((i2, turn)) => {
                let j = skip_spaces(s, i2);
                if j >= s.len() {
                    None
                } else {
                    let e = token_end(s, j);
                    let cast = parse_castling_chars(s, j, e, w1, b1);
                    match parse_ep(s, e, cast.0, cast.1) {
                        None => None,
                        Some((i3, w3, b3)) => if has_two_more_tokens(s, i3) {
                            let board = BitBoard { white_set: w3, black_set: b3, player: turn };
                            Some(
                                with_attack_map(
                                    with_attack_map(board, turn),
                                    turn.spec_other(),
                                ),
                            )
                        } else {
                            None
                        },
                    }
                }
            },
        },
    }
}

impl BitBoard {
    /// Parse a FEN record. On success the returned position is exactly the
    /// one the record denotes, with both attack maps freshly derived; on
    /// any malformed record an error is returned and nothing else.
    pub fn fen_to_bitboard(fen: &str, tables: &Tables) -> (r: Result<BitBoard, String>)
        requires
            tables.wf(),
        ensures
            match r {
                Ok(board) => fen_parse_spec(fen@) == Some(board),
                Err(_) => fen_parse_spec(fen@) is None,
            },
    {
        let s_len = fen.unicode_len();

        // Placement field.
        let mut w = PieceSet::get_empty_piece_set();
        let mut bset = PieceSet::get_empty_piece_set();
        let mut i: usize = 0;
        let mut rank: usize = 7;
        let mut file: usize = 0;

        loop
            invariant
                s_len == fen@.len(),
                i <= s_len,
                rank <= 7,
                file <= 8,
                parse_placement(fen@, i as int, rank as int, file as int, w, bset)
                    == parse_placement(
                    fen@,
                    0,
                    7,
                    0,
                    PieceSet::spec_empty(),
                    PieceSet::spec_empty(),
                ),
            ensures
                i <= s_len,
                rank <= 7,
                file <= 8,
                i >= s_len || fen@[i as int] == ' ',
                parse_placement(fen@, i as int, rank as int, file as int, w, bset)
                    == parse_placement(
                    fen@,
                    0,
                    7,
                    0,
                    PieceSet::spec_empty(),
                    PieceSet::spec_empty(),
                ),
            decreases s_len - i,
        {
            if i >= s_len {
                break;
            }
            let c = fen.get_char(i);
            if c == ' ' {
                break;
            }
            if c == '/' {
                if !(rank > 0 && file == 8) {
                    return Err("Invalid FEN: bad rank boundary".to_owned());
                }
                rank = rank - 1;
                file = 0;
                i = i + 1;
            } else if c as u32 >= 49 && c as u32 <= 56 {
                let d = (c as u32 - 48) as usize;
                if file + d > 8 {
                    return Err("Invalid FEN: rank too long".to_owned());
                }
                file = file + d;
                i = i + 1;
            } else {
                if file >= 8 {
                    return Err("Invalid FEN: rank too long".to_owned());
                }
                let sq = rank * 8 + file;
                if c == 'P' {
                    w.pawns = w.pawns | (1u64 << sq);
                    w.occupied = w.occupied | (1u64 << sq);
                } else if c == 'N' {
                    w.knights = w.knights | (1u64 << sq);
                    w.occupied = w.occupied | (1u64 << sq);
                } else if c == 'B' {
                    w.bishops = w.bishops | (1u64 << sq);
                    w.occupied = w.occupied | (1u64 << sq);
                } else if c == 'R' {
                    w.rooks = w.rooks | (1u64 << sq);
                    w.occupied = w.occupied | (1u64 << sq);
                } else if c == 'Q' {
                    w.queens = w.queens | (1u64 << sq);
                    w.occupied = w.occupied | (1u64 << sq);
                } else if c == 'K' {
                    w.kings = w.kings | (1u64 << sq);
                    w.occupied = w.occupied | (1u64 << sq);
                } else if c == 'p' {
                    bset.pawns = bset.pawns | (1u64 << sq);
                    bset.occupied = bset.occupied | (1u64 << sq);
                } else if c == 'n' {
                    bset.knights = bset.knights | (1u64 << sq);
                    bset.occupied = bset.occupied | (1u64 << sq);
                } else if c == 'b' {
                    bset.bishops = bset.bishops | (1u64 << sq);
                    bset.occupied = bset.occupied | (1u64 << sq);
                } else if c == 'r' {
                    bset.rooks = bset.rooks | (1u64 << sq);
                    bset.occupied = bset.occupied | (1u64 << sq);
                } else if c == 'q' {
                    bset.queens = bset.queens | (1u64 << sq);
                    bset.occupied = bset.occupied | (1u64 << sq);
                } else if c == 'k' {
                    bset.kings = bset.kings | (1u64 << sq);
                    bset.occupied = bset.occupied | (1u64 << sq);
                } else {
                    return Err("Invalid character in FEN".to_owned());
                }
                file = file + 1;
                i = i + 1;
            }
        }

        if !(rank == 0 && file == 8) {
            return Err("Invalid FEN: wrong number of ranks".to_owned());
        }
        let ghost i1 = i as int;
        proof {
            assert(parse_placement(
                fen@,
                0,
                7,
                0,
                PieceSet::spec_empty(),
                PieceSet::spec_empty(),
            ) == Some((i1, w, bset)));
        }

        // Side-to-move field.
        let ghost side_start = i as int;
        while i < s_len && fen.get_char(i) == ' '
            invariant
                s_len == fen@.len(),
                i <= s_len,
                skip_spaces(fen@, side_start) == skip_spaces(fen@, i as int),
                side_start <= i as int,
            decreases s_len - i,
        {
            i = i + 1;
        }
        if i >= s_len {
            return Err("Invalid FEN string format".to_owned());
        }
        let side_c = fen.get_char(i);
        if !(i + 1 == s_len || fen.get_char(i + 1) == ' ') {
            return Err("Invalid FEN: bad side to move".to_owned());
        }
        let turn = if side_c == 'w' {
            Player::White
        } else if side_c == 'b' {
            Player::Black
        } else {
            return Err("Invalid FEN: bad side to move".to_owned());
        };
        i = i + 1;
        let ghost i2 = i as int;
        proof {
            assert(parse_side(fen@, i1) == Some((i2, turn)));
        }

        // Castling field.
        let ghost cast_start = i as int;
        while i < s_len && fen.get_char(i) == ' '
            invariant
                s_len == fen@.len(),
                i <= s_len,
                skip_spaces(fen@, cast_start) == skip_spaces(fen@, i as int),
                cast_start <= i as int,
            decreases s_len - i,
        {
            i = i + 1;
        }
        if i >= s_len {
            return Err("Invalid FEN string format".to_owned());
        }
        let ghost j0 = i as int;
        let ghost e0 = token_end(fen@, j0);
        let ghost w0 = w;
        let ghost b0 = bset;
        proof {
            lemma_token_end_bounds(fen@, j0);
        }
        loop
            invariant
                s_len == fen@.len(),
                i <= s_len,
                j0 <= i as int,
                token_end(fen@, i as int) == e0,
                parse_castling_chars(fen@, i as int, e0, w, bset) == parse_castling_chars(
                    fen@,
                    j0,
                    e0,
                    w0,
                    b0,
                ),
            ensures
                i as int == e0,
                (w, bset) == parse_castling_chars(fen@, j0, e0, w0, b0),
            decreases s_len - i,
        {
            if i >= s_len {
                break;
            }
            let c = fen.get_char(i);
            if c == ' ' {
                break;
            }
            proof {
                lemma_token_end_bounds(fen@, i + 1);
            }
            if c == 'K' {
                w.castle_rooks = w.castle_rooks | (1u64 << 7);
            } else if c == 'Q' {
                w.castle_rooks = w.castle_rooks | 1u64;
            } else if c == 'k' {
                bset.castle_rooks = bset.castle_rooks | (1u64 << 63);
            } else if c == 'q' {
                bset.castle_rooks = bset.castle_rooks | (1u64 << 56);
            }
            i = i + 1;
        }

        // En-passant field.
        let ghost ep_start = i as int;
        let ghost w2g = w;
        let ghost b2g = bset;
        while i < s_len && fen.get_char(i) == ' '
            invariant
                s_len == fen@.len(),
                i <= s_len,
                skip_spaces(fen@, ep_start) == skip_spaces(fen@, i as int),
                ep_start <= i as int,
                w == w2g,
                bset == b2g,
            decreases s_len - i,
        {
            i = i + 1;
        }
        if i >= s_len {
            return Err("Invalid FEN string format".to_owned());
        }
        let tok_start = i;
        let mut e = i;
        while e < s_len && fen.get_char(e) != ' '
            invariant
                s_len == fen@.len(),
                tok_start <= e <= s_len,
                token_end(fen@, tok_start as int) == token_end(fen@, e as int),
            decreases s_len - e,
        {
            e = e + 1;
        }
        let tok_len = e - tok_start;
        if tok_len == 1 && fen.get_char(tok_start) == '-' {
            i = e;
        } else if tok_len == 2 {
            let fc = fen.get_char(tok_start) as u32;
            if fc >= 97 && fc <= 104 {
                let filec = (fc - 97) as usize;
                let rc = fen.get_char(tok_start + 1);
                if rc == '3' {
                    w.double_push_pawns = 1u64 << (16 + filec);
                } else if rc == '6' {
                    bset.double_push_pawns = 1u64 << (40 + filec);
                } else {
                    return Err("Invalid en passant square".to_owned());
                }
                i = e;
            } else {
                return Err("Invalid en passant square".to_owned());
            }
        } else {
            return Err("Invalid en passant square".to_owned());
        }
        let ghost i3 = i as int;
        proof {
            assert(parse_ep(fen@, e0, w2g, b2g) == Some((i3, w, bset)));
        }

        // Halfmove and fullmove fields: present, otherwise ignored.
        let ghost cnt_start = i as int;
        while i < s_len && fen.get_char(i) == ' '
            invariant
                s_len == fen@.len(),
                i <= s_len,
                skip_spaces(fen@, cnt_start) == skip_spaces(fen@, i as int),
            decreases s_len - i,
        {
            i = i + 1;
        }
        if i >= s_len {
            return Err("Invalid FEN string format".to_owned());
        }
        let ghost half_start = i as int;
        while i < s_len && fen.get_char(i) != ' '
            invariant
                s_len == fen@.len(),
                i <= s_len,
                half_start <= i as int,
                token_end(fen@, half_start) == token_end(fen@, i as int),
            decreases s_len - i,
        {
            i = i + 1;
        }
        let ghost full_start = i as int;
        while i < s_len && fen.get_char(i) == ' '
            invariant
                s_len == fen@.len(),
                i <= s_len,
                skip_spaces(fen@, full_start) == skip_spaces(fen@, i as int),
            decreases s_len - i,
        {
            i = i + 1;
        }
        if i >= s_len {
            return Err("Invalid FEN string format".to_owned());
        }
        proof {
            assert(has_two_more_tokens(fen@, i3));
        }

        let mut board = BitBoard { white_set: w, black_set: bset, player: turn };
        board.generate_attack_maps(turn, tables);
        board.generate_attack_maps(turn.other(), tables);
        proof {
            assert(fen_parse_spec(fen@) == Some(board));
        }
        Ok(board)
    }
}

pub open spec fn digit_char(d: int) -> char {
    if d == 1 {
        '1'
    } else if d == 2 {
        '2'
    } else if d == 3 {
        '3'
    } else if d == 4 {
        '4'
    } else if d == 5 {
        '5'
    } else if d == 6 {
        '6'
    } else if d == 7 {
        '7'
    } else {
        '8'
    }
}

pub open spec fn file_char(f: int) -> char {
    if f == 0 {
        'a'
    } else if f == 1 {
        'b'
    } else if f == 2 {
        'c'
    } else if f == 3 {
        'd'
    } else if f == 4 {
        'e'
    } else if f == 5 {
        'f'
    } else if f == 6 {
        'g'
    } else {
        'h'
    }
}

/// The letter of the piece on an occupied square: upper case white first,
/// each side searched in the fixed kind order.
pub open spec fn square_char(w: PieceSet, b: PieceSet, sq: u64) -> char {
    if bit(w.occupied, sq) {
        if bit(w.pawns, sq) {
            'P'
        } else if bit(w.knights, sq) {
            'N'
        } else if bit(w.bishops, sq) {
            'B'
        } else if bit(w.rooks, sq) {
            'R'
        } else if bit(w.queens, sq) {
            'Q'
        } else {
            'K'
        }
    } else {
        if bit(b.pawns, sq) {
            'p'
        } else if bit(b.knights, sq) {
            'n'
        } else if bit(b.bishops, sq) {
            'b'
        } else if bit(b.rooks, sq) {
            'r'
        } else if bit(b.queens, sq) {
            'q'
        } else {
            'k'
        }
    }
}

/// One rank's placement text from `file` on, with `empties` empty squares
/// pending.
pub open spec fn emit_rank_from(
    w: PieceSet,
    b: PieceSet,
    rank: int,
    file: int,
    empties: int,
) -> Seq<char>
    decreases 8 - file,
    when 0 <= file <= 8
{
    if file >= 8 {
        if empties > 0 {
            seq![digit_char(empties)]
        } else {
            Seq::empty()
        }
    } else {
        let sq = (rank * 8 + file) as u64;
        if bit(w.occupied, sq) || bit(b.occupied, sq) {
            (if empties > 0 {
                seq![digit_char(empties)]
            } else {
                Seq::empty()
            }) + seq![square_char(w, b, sq)] + emit_rank_from(w, b, rank, file + 1, 0)
        } else {
            emit_rank_from(w, b, rank, file + 1, empties + 1)
        }
    }
}

/// The placement field from `rank` down to rank 1, ranks joined by `/`.
pub open spec fn emit_ranks(w: PieceSet, b: PieceSet, rank: int) -> Seq<char>
    decreases rank,
    when 0 <= rank <= 7
{
    if rank == 0 {
        emit_rank_from(w, b, 0, 0, 0)
    } else {
        emit_rank_from(w, b, rank, 0, 0) + seq!['/'] + emit_ranks(w, b, rank - 1)
    }
}

/// The castling field: one letter per surviving corner right, `-` when
/// none survive.
pub open spec fn emit_castling(w: PieceSet, b: PieceSet) -> Seq<char> {
    let cs = (if bit(w.castle_rooks, 7) {
        seq!['K']
    } else {
        Seq::empty()
    }) + (if bit(w.castle_rooks, 0) {
        seq!['Q']
    } else {
        Seq::empty()
    }) + (if bit(b.castle_rooks, 63) {
        seq!['k']
    } else {
        Seq::empty()
    }) + (if bit(b.castle_rooks, 56) {
        seq!['q']
    } else {
        Seq::empty()
    });
    if cs.len() == 0 {
        seq!['-']
    } else {
        cs
    }
}

/// The en-passant field: the marked target square's file with rank 3 for a
/// white push or 6 for a black one, else `-`.
pub open spec fn emit_ep(w: PieceSet, b: PieceSet) -> Seq<char> {
    if w.double_push_pawns != 0 {
        seq![file_char(u64_trailing_zeros(w.double_push_pawns) as int % 8), '3']
    } else if b.double_push_pawns != 0 {
        seq![file_char(u64_trailing_zeros(b.double_push_pawns) as int % 8), '6']
    } else {
        seq!['-']
    }
}

/// The full FEN record of a position: placement, side, castling,
/// en-passant, and the untracked counters as `0 1`.
pub open spec fn fen_emit_spec(bd: BitBoard, turn: bool) -> Seq<char> {
    emit_ranks(bd.white_set, bd.black_set, 7) + seq![' '] + seq![
        if turn {
            'b'
        } else {
            'w'
        },
    ] + seq![' '] + emit_castling(bd.white_set, bd.black_set) + seq![' '] + emit_ep(
        bd.white_set,
        bd.black_set,
    ) + seq![' ', '0', ' ', '1']
}

/// The one-character string of a pending-empties digit.
fn digit_str(d: usize) -> (r: &'static str)
    requires
        1 <= d <= 8,
    ensures
        r@ == seq![digit_char(d as int)],
{
    proof {
        reveal_strlit("1");
        reveal_strlit("2");
        reveal_strlit("3");
        reveal_strlit("4");
        reveal_strlit("5");
        reveal_strlit("6");
        reveal_strlit("7");
        reveal_strlit("8");
    }
    if d == 1 {
        "1"
    } else if d == 2 {
        "2"
    } else if d == 3 {
        "3"
    } else if d == 4 {
        "4"
    } else if d == 5 {
        "5"
    } else if d == 6 {
        "6"
    } else if d == 7 {
        "7"
    } else {
        "8"
    }
}

/// The one-character string of a file letter.
fn file_str(f: usize) -> (r: &'static str)
    requires
        f < 8,
    ensures
        r@ == seq![file_char(f as int)],
{
    proof {
        reveal_strlit("a");
        reveal_strlit("b");
        reveal_strlit("c");
        reveal_strlit("d");
        reveal_strlit("e");
        reveal_strlit("f");
        reveal_strlit("g");
        reveal_strlit("h");
    }
    if f == 0 {
        "a"
    } else if f == 1 {
        "b"
    } else if f == 2 {
        "c"
    } else if f == 3 {
        "d"
    } else if f == 4 {
        "e"
    } else if f == 5 {
        "f"
    } else if f == 6 {
        "g"
    } else {
        "h"
    }
}

/// The one-character string of the piece on an occupied square.
fn square_str(w: &PieceSet, b: &PieceSet, sq: usize) -> (r: &'static str)
    requires
        sq < 64,
    ensures
        r@ == seq![square_char(*w, *b, sq as u64)],
{
    proof {
        reveal_strlit("P");
        reveal_strlit("N");
        reveal_strlit("B");
        reveal_strlit("R");
        reveal_strlit("Q");
        reveal_strlit("K");
        reveal_strlit("p");
        reveal_strlit("n");
        reveal_strlit("b");
        reveal_strlit("r");
        reveal_strlit("q");
        reveal_strlit("k");
    }
    if test_bit(w.occupied, sq) {
        if test_bit(w.pawns, sq) {
            "P"
        } else if test_bit(w.knights, sq) {
            "N"
        } else if test_bit(w.bishops, sq) {
            "B"
        } else if test_bit(w.rooks, sq) {
            "R"
        } else if test_bit(w.queens, sq) {
            "Q"
        } else {
            "K"
        }
    } else {
        if test_bit(b.pawns, sq) {
            "p"
        } else if test_bit(b.knights, sq) {
            "n"
        } else if test_bit(b.bishops, sq) {
            "b"
        } else if test_bit(b.rooks, sq) {
            "r"
        } else if test_bit(b.queens, sq) {
            "q"
        } else {
            "k"
        }
    }
}

impl BitBoard {
    /// Emit the FEN record of this position, with `turn` naming the side
    /// to move (true for black) and the untracked counters as `0 1`.
    #[verifier::rlimit(100)]
    pub fn bitboard_to_fen(&self, turn: bool) -> (fen: String)
        ensures
            fen@ == fen_emit_spec(*self, turn),
    {
        let mut fen = String::new();

        let w = &self.white_set;
        let b = &self.black_set;

        let mut r: usize = 8;
        while r > 0
            invariant
                r <= 8,
                *w == self.white_set,
                *b == self.black_set,
                r > 0 ==> fen@ + emit_ranks(*w, *b, r - 1) == emit_ranks(*w, *b, 7),
                r == 0 ==> fen@ == emit_ranks(*w, *b, 7),
            decreases r,
        {
            let rank = r - 1;
            let ghost fen0 = fen@;
            let mut file: usize = 0;
            let mut empties: usize = 0;
            while file < 8
                invariant
                    rank <= 7,
                    file <= 8,
                    empties <= file,
                    *w == self.white_set,
                    *b == self.black_set,
                    fen@ + emit_rank_from(*w, *b, rank as int, file as int, empties as int) == fen0
                        + emit_rank_from(*w, *b, rank as int, 0, 0),
                decreases 8 - file,
            {
                let sq = rank * 8 + file;
                let ghost pre = fen@;
                if test_bit(w.occupied, sq) || test_bit(b.occupied, sq) {
                    if empties > 0 {
                        fen.append(digit_str(empties));
                    }
                    fen.append(square_str(w, b, sq));
                    proof {
                        assert(fen@ =~= pre + (if empties > 0 {
                            seq![digit_char(empties as int)]
                        } else {
                            Seq::<char>::empty()
                        }) + seq![square_char(*w, *b, sq as u64)]);
                        assert(fen@ + emit_rank_from(*w, *b, rank as int, file + 1, 0) =~= pre
                            + emit_rank_from(*w, *b, rank as int, file as int, empties as int));
                    }
                    empties = 0;
                } else {
                    empties = empties + 1;
                }
                file = file + 1;
            }
            if empties > 0 {
                let ghost pre = fen@;
                fen.append(digit_str(empties));
                proof {
                    assert(fen@ =~= pre + emit_rank_from(*w, *b, rank as int, 8, empties as int));
                }
            }
            proof {
                assert(fen@ =~= fen0 + emit_rank_from(*w, *b, rank as int, 0, 0));
            }
            if rank > 0 {
                let ghost pre = fen@;
                fen.append("/");
                proof {
                    reveal_strlit("/");
                    assert(fen@ =~= pre + seq!['/']);
                    assert(fen@ + emit_ranks(*w, *b, rank - 1) =~= fen0 + emit_ranks(
                        *w,
                        *b,
                        rank as int,
                    ));
                }
            }
            r = r - 1;
        }

        let ghost placement = fen@;

        fen.append(" ");
        if turn {
            fen.append("b");
        } else {
            fen.append("w");
        }
        fen.append(" ");
        proof {
            reveal_strlit(" ");
            reveal_strlit("b");
            reveal_strlit("w");
            assert(fen@ =~= placement + seq![' '] + seq![
                if turn {
                    'b'
                } else {
                    'w'
                },
            ] + seq![' ']);
        }
        let ghost pre_castle = fen@;

        let mut has_castling_rights = false;
        if test_bit(w.castle_rooks, 7) {
            fen.append("K");
            has_castling_rights = true;
        }
        if test_bit(w.castle_rooks, 0) {
            fen.append("Q");
            has_castling_rights = true;
        }
        if test_bit(b.castle_rooks, 63) {
            fen.append("k");
            has_castling_rights = true;
        }
        if test_bit(b.castle_rooks, 56) {
            fen.append("q");
            has_castling_rights = true;
        }
        if !has_castling_rights {
            fen.append("-");
        }
        proof {
            reveal_strlit("K");
            reveal_strlit("Q");
            reveal_strlit("k");
            reveal_strlit("q");
            reveal_strlit("-");
            assert(fen@ =~= pre_castle + emit_castling(*w, *b));
        }

        fen.append(" ");
        let ghost pre_ep = fen@;

        if w.double_push_pawns != 0 {
            let pawn_index = crate::utils::get_lsb(w.double_push_pawns);
            proof {
                broadcast use vstd::std_specs::bits::axiom_u64_trailing_zeros;

            }
            fen.append(file_str(pawn_index % 8));
            fen.append("3");
        } else if b.double_push_pawns != 0 {
            let pawn_index = crate::utils::get_lsb(b.double_push_pawns);
            proof {
                broadcast use vstd::std_specs::bits::axiom_u64_trailing_zeros;

            }
            fen.append(file_str(pawn_index % 8));
            fen.append("6");
        } else {
            fen.append("-");
        }
        proof {
            reveal_strlit(" ");
            reveal_strlit("3");
            reveal_strlit("6");
            reveal_strlit("-");
            assert(fen@ =~= pre_ep + emit_ep(*w, *b));
        }

        let ghost pre_tail = fen@;
        fen.append(" 0 1");
        proof {
            reveal_strlit(" 0 1");
            assert(fen@ =~= pre_tail + seq![' ', '0', ' ', '1']);
            assert(fen@ =~= fen_emit_spec(*self, turn));
        }

        fen
    }
}

/// Squares on ranks strictly above `r`.
pub open spec fn mask_hi(r: u64) -> u64 {
    if r >= 7 {
        0
    } else {
        (!0u64) << ((8 * (r + 1)) as u64)
    }
}

/// Squares emitted before file `f` of rank `r`: all ranks above `r`, and
/// the first `f` files of rank `r` itself.
pub open spec fn mask_before(r: u64, f: u64) -> u64 {
    mask_hi(r) | ((((1u64 << f) - 1) as u64) << ((8 * r) as u64))
}

/// An accumulator set agrees with the full set on every square under the
/// mask, and holds nothing outside it.
pub open spec fn restricted(acc: PieceSet, full: PieceSet, m: u64) -> bool {
    &&& acc.pawns == full.pawns & m
    &&& acc.knights == full.knights & m
    &&& acc.bishops == full.bishops & m
    &&& acc.rooks == full.rooks & m
    &&& acc.queens == full.queens & m
    &&& acc.kings == full.kings & m
    &&& acc.occupied == full.occupied & m
}

/// One more file under the mask: the next square's bit joins, fresh.
proof fn lemma_mask_step(r: u64, f: u64)
    by (bit_vector)
    requires
        r < 8,
        f < 8,
    ensures
        mask_before(r, (f + 1) as u64) == mask_before(r, f) | (1u64 << ((8 * r + f) as u64)),
        mask_before(r, f) & (1u64 << ((8 * r + f) as u64)) == 0,
{
}

/// `&` distributes over adding one bit to a mask.
proof fn lemma_and_or_dist(x: u64, m: u64, i: u64)
    by (bit_vector)
    requires
        i < 64,
    ensures
        x & (m | (1u64 << i)) == (x & m) | (x & (1u64 << i)),
        x & (1u64 << i) != 0 ==> x & (1u64 << i) == (1u64 << i),
        x & 0 == 0,
{
}

/// Finishing a rank and starting the one below cover the same squares.
proof fn lemma_mask_rank_step(r: u64)
    by (bit_vector)
    requires
        1 <= r < 8,
    ensures
        mask_before((r - 1) as u64, 0) == mask_before(r, 8),
{
}

/// The mask before the first square is empty; after the last it is full.
proof fn lemma_mask_edges(x: u64)
    by (bit_vector)
    ensures
        x & mask_before(0, 8) == x,
        x & mask_before(7, 0) == 0,
{
}

/// A set bit of `a` cannot be a bit of anything disjoint from `a`.
proof fn lemma_disjoint_bit(a: u64, c: u64, i: u64)
    by (bit_vector)
    requires
        i < 64,
        a & c == 0,
        a & (1u64 << i) != 0,
    ensures
        c & (1u64 << i) == 0,
{
}

/// Skipping a square empty in `full` extends the restriction for free.
proof fn lemma_restricted_extend_empty(acc: PieceSet, full: PieceSet, r: u64, f: u64)
    requires
        r < 8,
        f < 8,
        full.wf(),
        restricted(acc, full, mask_before(r, f)),
        !bit(full.occupied, (8 * r + f) as u64),
    ensures
        restricted(acc, full, mask_before(r, (f + 1) as u64)),
{
    let sq = (8 * r + f) as u64;
    let m = mask_before(r, f);
    lemma_mask_step(r, f);
    crate::engine::lemma_occupied_bit(full, sq);
    lemma_and_or_dist(full.pawns, m, sq);
    lemma_and_or_dist(full.knights, m, sq);
    lemma_and_or_dist(full.bishops, m, sq);
    lemma_and_or_dist(full.rooks, m, sq);
    lemma_and_or_dist(full.queens, m, sq);
    lemma_and_or_dist(full.kings, m, sq);
    lemma_and_or_dist(full.occupied, m, sq);
    crate::utils::lemma_or_basics(full.pawns & m, 0, 0);
    crate::utils::lemma_or_basics(full.knights & m, 0, 0);
    crate::utils::lemma_or_basics(full.bishops & m, 0, 0);
    crate::utils::lemma_or_basics(full.rooks & m, 0, 0);
    crate::utils::lemma_or_basics(full.queens & m, 0, 0);
    crate::utils::lemma_or_basics(full.kings & m, 0, 0);
    crate::utils::lemma_or_basics(full.occupied & m, 0, 0);
}

/// The accumulator filled exactly to mask `m` of the full set.
pub open spec fn filled_to(acc: PieceSet, full: PieceSet, m: u64) -> PieceSet {
    PieceSet {
        pawns: full.pawns & m,
        knights: full.knights & m,
        bishops: full.bishops & m,
        rooks: full.rooks & m,
        queens: full.queens & m,
        kings: full.kings & m,
        occupied: full.occupied & m,
        ..acc
    }
}

/// Extending a one-side restriction over a square that side occupies: the
/// emitted letter places exactly that piece.
proof fn lemma_restricted_extend_piece(acc: PieceSet, full: PieceSet, r: u64, f: u64)
    requires
        r < 8,
        f < 8,
        full.wf(),
        restricted(acc, full, mask_before(r, f)),
        bit(full.occupied, (8 * r + f) as u64),
    ensures
        ({
            let sq = (8 * r + f) as u64;
            let m2 = mask_before(r, (f + 1) as u64);
            &&& (bit(full.pawns, sq) ==> filled_to(acc, full, m2) == PieceSet {
                pawns: acc.pawns | (1u64 << sq),
                occupied: acc.occupied | (1u64 << sq),
                ..acc
            })
            &&& (bit(full.knights, sq) ==> filled_to(acc, full, m2) == PieceSet {
                knights: acc.knights | (1u64 << sq),
                occupied: acc.occupied | (1u64 << sq),
                ..acc
            })
            &&& (bit(full.bishops, sq) ==> filled_to(acc, full, m2) == PieceSet {
                bishops: acc.bishops | (1u64 << sq),
                occupied: acc.occupied | (1u64 << sq),
                ..acc
            })
            &&& (bit(full.rooks, sq) ==> filled_to(acc, full, m2) == PieceSet {
                rooks: acc.rooks | (1u64 << sq),
                occupied: acc.occupied | (1u64 << sq),
                ..acc
            })
            &&& (bit(full.queens, sq) ==> filled_to(acc, full, m2) == PieceSet {
                queens: acc.queens | (1u64 << sq),
                occupied: acc.occupied | (1u64 << sq),
                ..acc
            })
            &&& (bit(full.kings, sq) ==> filled_to(acc, full, m2) == PieceSet {
                kings: acc.kings | (1u64 << sq),
                occupied: acc.occupied | (1u64 << sq),
                ..acc
            })
        }),
{
    let sq = (8 * r + f) as u64;
    let m = mask_before(r, f);
    lemma_mask_step(r, f);
    crate::engine::lemma_occupied_bit(full, sq);
    crate::engine::lemma_disjoint_sym(full);
    lemma_and_or_dist(full.pawns, m, sq);
    lemma_and_or_dist(full.knights, m, sq);
    lemma_and_or_dist(full.bishops, m, sq);
    lemma_and_or_dist(full.rooks, m, sq);
    lemma_and_or_dist(full.queens, m, sq);
    lemma_and_or_dist(full.kings, m, sq);
    lemma_and_or_dist(full.occupied, m, sq);
    crate::utils::lemma_or_basics(full.pawns & m, 0, 0);
    crate::utils::lemma_or_basics(full.knights & m, 0, 0);
    crate::utils::lemma_or_basics(full.bishops & m, 0, 0);
    crate::utils::lemma_or_basics(full.rooks & m, 0, 0);
    crate::utils::lemma_or_basics(full.queens & m, 0, 0);
    crate::utils::lemma_or_basics(full.kings & m, 0, 0);
    if bit(full.pawns, sq) {
        lemma_disjoint_bit(full.pawns, full.knights, sq);
        lemma_disjoint_bit(full.pawns, full.bishops, sq);
        lemma_disjoint_bit(full.pawns, full.rooks, sq);
        lemma_disjoint_bit(full.pawns, full.queens, sq);
        lemma_disjoint_bit(full.pawns, full.kings, sq);
    }
    if bit(full.knights, sq) {
        lemma_disjoint_bit(full.knights, full.pawns, sq);
        lemma_disjoint_bit(full.knights, full.bishops, sq);
        lemma_disjoint_bit(full.knights, full.rooks, sq);
        lemma_disjoint_bit(full.knights, full.queens, sq);
        lemma_disjoint_bit(full.knights, full.kings, sq);
    }
    if bit(full.bishops, sq) {
        lemma_disjoint_bit(full.bishops, full.pawns, sq);
        lemma_disjoint_bit(full.bishops, full.knights, sq);
        lemma_disjoint_bit(full.bishops, full.rooks, sq);
        lemma_disjoint_bit(full.bishops, full.queens, sq);
        lemma_disjoint_bit(full.bishops, full.kings, sq);
    }
    if bit(full.rooks, sq) {
        lemma_disjoint_bit(full.rooks, full.pawns, sq);
        lemma_disjoint_bit(full.rooks, full.knights, sq);
        lemma_disjoint_bit(full.rooks, full.bishops, sq);
        lemma_disjoint_bit(full.rooks, full.queens, sq);
        lemma_disjoint_bit(full.rooks, full.kings, sq);
    }
    if bit(full.queens, sq) {
        lemma_disjoint_bit(full.queens, full.pawns, sq);
        lemma_disjoint_bit(full.queens, full.knights, sq);
        lemma_disjoint_bit(full.queens, full.bishops, sq);
        lemma_disjoint_bit(full.queens, full.rooks, sq);
        lemma_disjoint_bit(full.queens, full.kings, sq);
    }
    if bit(full.kings, sq) {
        lemma_disjoint_bit(full.kings, full.pawns, sq);
        lemma_disjoint_bit(full.kings, full.knights, sq);
        lemma_disjoint_bit(full.kings, full.bishops, sq);
        lemma_disjoint_bit(full.kings, full.rooks, sq);
        lemma_disjoint_bit(full.kings, full.queens, sq);
    }
}

/// Indexing and shifting inside a known segment of a longer sequence.
proof fn lemma_subrange_shift(s: Seq<char>, i: int, t: Seq<char>, k: int)
    requires
        0 <= i,
        i + t.len() <= s.len(),
        s.subrange(i, i + t.len() as int) == t,
        0 <= k <= t.len(),
    ensures
        s.subrange(i + k, i + t.len() as int) == t.subrange(k, t.len() as int),
        forall|j: int| 0 <= j < t.len() ==> s[i + j] == t[j],
{
    assert forall|j: int| 0 <= j < t.len() implies s[i + j] == t[j] by {
        assert(t[j] == s.subrange(i, i + t.len() as int)[j]);
    }
    assert(s.subrange(i + k, i + t.len() as int) =~= t.subrange(k, t.len() as int));
}

/// Skipping a run of empty squares extends the restriction for free.
proof fn lemma_restricted_skip(acc: PieceSet, full: PieceSet, r: u64, f1: u64, f2: u64)
    requires
        r < 8,
        f1 <= f2 <= 8,
        full.wf(),
        restricted(acc, full, mask_before(r, f1)),
        forall|sqg: u64| 8 * r + f1 <= sqg < 8 * r + f2 ==> !bit(full.occupied, sqg),
    ensures
        restricted(acc, full, mask_before(r, f2)),
    decreases f2 - f1,
{
    if f1 < f2 {
        lemma_restricted_extend_empty(acc, full, r, f1);
        lemma_restricted_skip(acc, full, r, (f1 + 1) as u64, f2);
    }
}

/// Parsing the emitted text of one rank advances the cursor past it and
/// fills the accumulators exactly to the end of the rank.
#[verifier::rlimit(100)]
proof fn lemma_parse_rank(
    s: Seq<char>,
    i: int,
    r: u64,
    f: u64,
    e: u64,
    w: PieceSet,
    b: PieceSet,
    w_acc: PieceSet,
    b_acc: PieceSet,
)
    requires
        r < 8,
        e <= f <= 8,
        w.wf(),
        b.wf(),
        w.occupied & b.occupied == 0,
        0 <= i,
        i + emit_rank_from(w, b, r as int, f as int, e as int).len() <= s.len(),
        s.subrange(i, i + emit_rank_from(w, b, r as int, f as int, e as int).len() as int)
            == emit_rank_from(w, b, r as int, f as int, e as int),
        restricted(w_acc, w, mask_before(r, (f - e) as u64)),
        restricted(b_acc, b, mask_before(r, (f - e) as u64)),
        forall|sqg: u64|
            8 * r + (f - e) <= sqg < 8 * r + f ==> !bit(w.occupied, sqg) && !bit(b.occupied, sqg),
    ensures
        parse_placement(s, i, r as int, (f - e) as int, w_acc, b_acc) == parse_placement(
            s,
            i + emit_rank_from(w, b, r as int, f as int, e as int).len() as int,
            r as int,
            8,
            filled_to(w_acc, w, mask_before(r, 8)),
            filled_to(b_acc, b, mask_before(r, 8)),
        ),
    decreases 8 - f,
{
    let t = emit_rank_from(w, b, r as int, f as int, e as int);
    let fe = (f - e) as u64;
    if f >= 8 {
        lemma_restricted_skip(w_acc, w, r, fe, 8);
        lemma_restricted_skip(b_acc, b, r, fe, 8);
        assert(w_acc == filled_to(w_acc, w, mask_before(r, 8)));
        assert(b_acc == filled_to(b_acc, b, mask_before(r, 8)));
        if e > 0 {
            lemma_subrange_shift(s, i, t, 1);
            assert(t[0] == digit_char(e as int));
            assert(s[i + 0] == t[0]);
            assert(s[i] == digit_char(e as int));
            assert(parse_placement(s, i, r as int, fe as int, w_acc, b_acc) == parse_placement(
                s,
                i + 1,
                r as int,
                8,
                w_acc,
                b_acc,
            ));
        }
    } else {
        let sq = (8 * r + f) as u64;
        if bit(w.occupied, sq) || bit(b.occupied, sq) {
            let pre_len: int = if e > 0 {
                1
            } else {
                0
            };
            let ch = square_char(w, b, sq);
            let rest = emit_rank_from(w, b, r as int, f as int + 1, 0);
            assert(t =~= (if e > 0 {
                seq![digit_char(e as int)]
            } else {
                Seq::<char>::empty()
            }) + seq![ch] + rest);
            assert(t.len() == pre_len + 1 + rest.len());
            lemma_subrange_shift(s, i, t, pre_len + 1);
            assert(t[pre_len] == ch);
            assert(s[i + pre_len] == t[pre_len]);

            lemma_restricted_skip(w_acc, w, r, fe, f);
            lemma_restricted_skip(b_acc, b, r, fe, f);

            if e > 0 {
                assert(t[0] == digit_char(e as int));
                assert(s[i + 0] == t[0]);
                assert(s[i] == digit_char(e as int));
                assert(parse_placement(s, i, r as int, fe as int, w_acc, b_acc)
                    == parse_placement(s, i + 1, r as int, f as int, w_acc, b_acc));
            }

            let w2: PieceSet;
            let b2: PieceSet;
            if bit(w.occupied, sq) {
                lemma_restricted_extend_piece(w_acc, w, r, f);
                lemma_disjoint_bit(w.occupied, b.occupied, sq);
                crate::engine::lemma_occupied_bit(w, sq);
                crate::engine::lemma_disjoint_sym(w);
                lemma_restricted_extend_empty(b_acc, b, r, f);
                w2 = filled_to(w_acc, w, mask_before(r, (f + 1) as u64));
                b2 = b_acc;
                if bit(w.pawns, sq) {
                    assert(ch == 'P');
                } else if bit(w.knights, sq) {
                    lemma_disjoint_bit(w.knights, w.pawns, sq);
                    assert(ch == 'N');
                } else if bit(w.bishops, sq) {
                    assert(ch == 'B');
                } else if bit(w.rooks, sq) {
                    assert(ch == 'R');
                } else if bit(w.queens, sq) {
                    assert(ch == 'Q');
                } else {
                    assert(bit(w.kings, sq));
                    assert(ch == 'K');
                }
                assert(place_piece(w_acc, b_acc, ch, sq) == Some((w2, b2)));
            } else {
                lemma_restricted_extend_piece(b_acc, b, r, f);
                crate::engine::lemma_occupied_bit(b, sq);
                crate::engine::lemma_disjoint_sym(b);
                lemma_restricted_extend_empty(w_acc, w, r, f);
                w2 = w_acc;
                b2 = filled_to(b_acc, b, mask_before(r, (f + 1) as u64));
                if bit(b.pawns, sq) {
                    assert(ch == 'p');
                } else if bit(b.knights, sq) {
                    lemma_disjoint_bit(b.knights, b.pawns, sq);
                    assert(ch == 'n');
                } else if bit(b.bishops, sq) {
                    assert(ch == 'b');
                } else if bit(b.rooks, sq) {
                    assert(ch == 'r');
                } else if bit(b.queens, sq) {
                    assert(ch == 'q');
                } else {
                    assert(bit(b.kings, sq));
                    assert(ch == 'k');
                }
                assert(place_piece(w_acc, b_acc, ch, sq) == Some((w2, b2)));
            }

            assert(ch != ' ' && ch != '/' && !is_rank_digit(ch));
            assert(parse_placement(s, i + pre_len, r as int, f as int, w_acc, b_acc)
                == parse_placement(s, i + pre_len + 1, r as int, f as int + 1, w2, b2));

            assert(t.subrange(pre_len + 1, t.len() as int) =~= rest);
            assert(s.subrange(i + pre_len + 1, i + t.len() as int) == rest);
            lemma_parse_rank(s, i + pre_len + 1, r, (f + 1) as u64, 0, w, b, w2, b2);
        } else {
            crate::engine::lemma_occupied_bit(w, sq);
            crate::engine::lemma_occupied_bit(b, sq);
            lemma_parse_rank(s, i, r, (f + 1) as u64, (e + 1) as u64, w, b, w_acc, b_acc);
        }
    }
}

/// Parsing the emitted placement from rank `r` down to rank 1 consumes it
/// entirely, ending at the space that follows it with both sides fully
/// rebuilt.
proof fn lemma_parse_ranks(
    s: Seq<char>,
    i: int,
    r: u64,
    w: PieceSet,
    b: PieceSet,
    w_acc: PieceSet,
    b_acc: PieceSet,
)
    requires
        r < 8,
        w.wf(),
        b.wf(),
        w.occupied & b.occupied == 0,
        0 <= i,
        i + emit_ranks(w, b, r as int).len() < s.len(),
        s.subrange(i, i + emit_ranks(w, b, r as int).len() as int) == emit_ranks(w, b, r as int),
        s[i + emit_ranks(w, b, r as int).len() as int] == ' ',
        restricted(w_acc, w, mask_before(r, 0)),
        restricted(b_acc, b, mask_before(r, 0)),
    ensures
        parse_placement(s, i, r as int, 0, w_acc, b_acc) == Some(
            (
                i + emit_ranks(w, b, r as int).len() as int,
                filled_to(w_acc, w, mask_before(0, 8)),
                filled_to(b_acc, b, mask_before(0, 8)),
            ),
        ),
    decreases r,
{
    let t = emit_ranks(w, b, r as int);
    if r == 0 {
        lemma_parse_rank(s, i, 0, 0, 0, w, b, w_acc, b_acc);
    } else {
        let t1 = emit_rank_from(w, b, r as int, 0, 0);
        let t2 = emit_ranks(w, b, r as int - 1);
        assert(t =~= t1 + seq!['/'] + t2);
        assert(t.len() == t1.len() + 1 + t2.len());
        lemma_subrange_shift(s, i, t, t1.len() as int + 1);
        assert(s.subrange(i, i + t1.len() as int) =~= t1);
        assert(t[t1.len() as int] == '/');
        assert(s[i + t1.len() as int] == t[t1.len() as int]);
        assert(t.subrange(t1.len() as int + 1, t.len() as int) =~= t2);
        assert(s.subrange(i + t1.len() as int + 1, i + t.len() as int) == t2);

        lemma_parse_rank(s, i, r, 0, 0, w, b, w_acc, b_acc);
        let i1 = i + t1.len() as int;
        let w_end1 = filled_to(w_acc, w, mask_before(r, 8));
        let b_end1 = filled_to(b_acc, b, mask_before(r, 8));
        assert(parse_placement(s, i1, r as int, 8, w_end1, b_end1) == parse_placement(
            s,
            i1 + 1,
            r as int - 1,
            0,
            w_end1,
            b_end1,
        ));
        lemma_mask_rank_step(r);
        lemma_parse_ranks(s, i1 + 1, (r - 1) as u64, w, b, w_end1, b_end1);
        assert(filled_to(w_end1, w, mask_before(0, 8)) == filled_to(w_acc, w, mask_before(0, 8)));
        assert(filled_to(b_end1, b, mask_before(0, 8)) == filled_to(b_acc, b, mask_before(0, 8)));
    }
}

/// Corner-only castling rights decompose into their two possible bits.
proof fn lemma_corner_rights(wcr: u64, bcr: u64)
    by (bit_vector)
    requires
        wcr & !0x81u64 == 0,
        bcr & !0x8100_0000_0000_0000u64 == 0,
    ensures
        wcr == (if wcr & (1u64 << 7) != 0 {
            (1u64 << 7)
        } else {
            0u64
        }) | (if wcr & 1u64 != 0 {
            1u64
        } else {
            0u64
        }),
        bcr == (if bcr & (1u64 << 63) != 0 {
            (1u64 << 63)
        } else {
            0u64
        }) | (if bcr & (1u64 << 56) != 0 {
            (1u64 << 56)
        } else {
            0u64
        }),
        (1u64 << 0) == 1u64,
{
}

/// The emitted castling field is nonempty, short, and free of spaces.
proof fn lemma_castling_text(wo: PieceSet, bo: PieceSet)
    ensures
        1 <= emit_castling(wo, bo).len() <= 4,
        forall|k: int|
            0 <= k < emit_castling(wo, bo).len() ==> #[trigger] emit_castling(wo, bo)[k] != ' ',
{
    let cs = emit_castling(wo, bo);
    assert forall|k: int| 0 <= k < cs.len() implies #[trigger] cs[k] != ' ' by {
        assert(cs[k] == 'K' || cs[k] == 'Q' || cs[k] == 'k' || cs[k] == 'q' || cs[k] == '-');
    }
}

/// Parsing the emitted castling field restores both sides' rights exactly,
/// provided they sat on the corners.
proof fn lemma_castling_round(
    s: Seq<char>,
    j: int,
    wo: PieceSet,
    bo: PieceSet,
    w_acc: PieceSet,
    b_acc: PieceSet,
)
    requires
        wo.castle_rooks & !0x81u64 == 0,
        bo.castle_rooks & !0x8100_0000_0000_0000u64 == 0,
        w_acc.castle_rooks == 0,
        b_acc.castle_rooks == 0,
        0 <= j,
        j + emit_castling(wo, bo).len() <= s.len(),
        s.subrange(j, j + emit_castling(wo, bo).len() as int) == emit_castling(wo, bo),
    ensures
        parse_castling_chars(
            s,
            j,
            j + emit_castling(wo, bo).len() as int,
            w_acc,
            b_acc,
        ) == (
            PieceSet { castle_rooks: wo.castle_rooks, ..w_acc },
            PieceSet { castle_rooks: bo.castle_rooks, ..b_acc },
        ),
{
    reveal_with_fuel(parse_castling_chars, 6);
    let cs = emit_castling(wo, bo);
    lemma_subrange_shift(s, j, cs, 0);
    lemma_corner_rights(wo.castle_rooks, bo.castle_rooks);
    crate::utils::lemma_or_basics(1u64 << 7, 1u64, 1u64 << 63);
    crate::utils::lemma_or_basics(1u64, 1u64 << 63, 1u64 << 56);
    crate::utils::lemma_or_basics(1u64 << 63, 1u64 << 56, 0);
    crate::utils::lemma_or_basics(1u64 << 56, 0, 0);
    crate::utils::lemma_or_basics(0, 0, 0);
    let k7 = bit(wo.castle_rooks, 7);
    let q0 = bit(wo.castle_rooks, 0);
    let k63 = bit(bo.castle_rooks, 63);
    let q56 = bit(bo.castle_rooks, 56);
    if !k7 && !q0 && !k63 && !q56 {
        assert(cs =~= seq!['-']);
        assert(s[j + 0] == cs[0]);
        assert(s[j] == '-');
        assert(parse_castling_chars(s, j, j + 1, w_acc, b_acc) == (w_acc, b_acc));
        assert(PieceSet { castle_rooks: wo.castle_rooks, ..w_acc } =~= w_acc);
        assert(PieceSet { castle_rooks: bo.castle_rooks, ..b_acc } =~= b_acc);
    } else {
        let ws = (if k7 {
            seq!['K']
        } else {
            Seq::<char>::empty()
        }) + (if q0 {
            seq!['Q']
        } else {
            Seq::<char>::empty()
        });
        let bs = (if k63 {
            seq!['k']
        } else {
            Seq::<char>::empty()
        }) + (if q56 {
            seq!['q']
        } else {
            Seq::<char>::empty()
        });
        assert(cs =~= ws + bs);
        if k7 {
            assert(cs[0] == 'K');
            assert(s[j + 0] == cs[0]);
            assert(s[j] == 'K');
        }
        if q0 {
            let p: int = if k7 {
                1
            } else {
                0
            };
            assert(cs[p] == 'Q');
            assert(s[j + p] == 'Q');
        }
        if k63 {
            let p = ws.len() as int;
            assert(cs[p] == 'k');
            assert(s[j + p] == 'k');
        }
        if q56 {
            let p = ws.len() as int + (if k63 {
                1int
            } else {
                0int
            });
            assert(cs[p] == 'q');
            assert(s[j + p] == 'q');
        }
    }
}

/// The emitted en-passant field is one or two characters, none a space.
proof fn lemma_ep_text(wo: PieceSet, bo: PieceSet)
    ensures
        1 <= emit_ep(wo, bo).len() <= 2,
        forall|k: int| 0 <= k < emit_ep(wo, bo).len() ==> #[trigger] emit_ep(wo, bo)[k] != ' ',
{
    let p = emit_ep(wo, bo);
    assert forall|k: int| 0 <= k < p.len() implies #[trigger] p[k] != ' ' by {
        if wo.double_push_pawns != 0 {
            if k == 0 {
                assert(p[0] == file_char(
                    u64_trailing_zeros(wo.double_push_pawns) as int % 8,
                ));
            } else {
                assert(p[1] == '3');
            }
        } else if bo.double_push_pawns != 0 {
            if k == 0 {
                assert(p[0] == file_char(
                    u64_trailing_zeros(bo.double_push_pawns) as int % 8,
                ));
            } else {
                assert(p[1] == '6');
            }
        } else {
            assert(p[0] == '-');
        }
    }
}

/// Parsing the emitted en-passant field, preceded by its separating space,
/// restores both sides' marks exactly.
proof fn lemma_ep_round(
    s: Seq<char>,
    i: int,
    wo: PieceSet,
    bo: PieceSet,
    w_acc: PieceSet,
    b_acc: PieceSet,
)
    requires
        wo.double_push_pawns == 0 || (exists|d: u64|
            d < 8 && wo.double_push_pawns == #[trigger] (1u64 << ((16 + d) as u64))),
        bo.double_push_pawns == 0 || (exists|d: u64|
            d < 8 && bo.double_push_pawns == #[trigger] (1u64 << ((40 + d) as u64))),
        !(wo.double_push_pawns != 0 && bo.double_push_pawns != 0),
        w_acc.double_push_pawns == 0,
        b_acc.double_push_pawns == 0,
        0 <= i,
        i + 1 + emit_ep(wo, bo).len() < s.len(),
        s[i] == ' ',
        s.subrange(i + 1, i + 1 + emit_ep(wo, bo).len() as int) == emit_ep(wo, bo),
        s[i + 1 + emit_ep(wo, bo).len() as int] == ' ',
    ensures
        parse_ep(s, i, w_acc, b_acc) == Some(
            (
                i + 1 + emit_ep(wo, bo).len() as int,
                PieceSet { double_push_pawns: wo.double_push_pawns, ..w_acc },
                PieceSet { double_push_pawns: bo.double_push_pawns, ..b_acc },
            ),
        ),
{
    let p = emit_ep(wo, bo);
    lemma_ep_text(wo, bo);
    lemma_subrange_shift(s, i + 1, p, 0);
    assert(s[i + 1 + 0] == p[0]);
    assert(s[i + 1] != ' ');
    lemma_skip_spaces_run(s, i, 1);
    assert(skip_spaces(s, i) == i + 1);
    assert forall|k: int| i + 1 <= k < i + 1 + p.len() implies s[k] != ' ' by {
        assert(s[i + 1 + (k - i - 1)] == p[k - i - 1]);
    }
    lemma_token_end_run(s, i + 1, p.len() as int);
    assert(token_end(s, i + 1) == i + 1 + p.len());

    if wo.double_push_pawns != 0 {
        let d = choose|d: u64| d < 8 && wo.double_push_pawns == #[trigger] (1u64 << ((16 + d) as u64));
        crate::utils::lemma_lsb_single_bit((16 + d) as u64);
        assert(u64_trailing_zeros(wo.double_push_pawns) == 16 + d);
        assert((16 + d as int) % 8 == d as int);
        assert(p =~= seq![file_char(d as int), '3']);
        assert(s[i + 1 + 1] == p[1]);
        assert(file_char(d as int) as int - 97 == d as int);
        assert(parse_ep(s, i, w_acc, b_acc) == Some(
            (
                i + 1 + 2,
                PieceSet { double_push_pawns: 1u64 << ((16 + d as int) as u64), ..w_acc },
                b_acc,
            ),
        ));
        assert(PieceSet { double_push_pawns: bo.double_push_pawns, ..b_acc } =~= b_acc);
    } else if bo.double_push_pawns != 0 {
        let d = choose|d: u64| d < 8 && bo.double_push_pawns == #[trigger] (1u64 << ((40 + d) as u64));
        crate::utils::lemma_lsb_single_bit((40 + d) as u64);
        assert(u64_trailing_zeros(bo.double_push_pawns) == 40 + d);
        assert((40 + d as int) % 8 == d as int);
        assert(p =~= seq![file_char(d as int), '6']);
        assert(s[i + 1 + 1] == p[1]);
        assert(file_char(d as int) as int - 97 == d as int);
        assert(parse_ep(s, i, w_acc, b_acc) == Some(
            (
                i + 1 + 2,
                w_acc,
                PieceSet { double_push_pawns: 1u64 << ((40 + d as int) as u64), ..b_acc },
            ),
        ));
        assert(PieceSet { double_push_pawns: wo.double_push_pawns, ..w_acc } =~= w_acc);
    } else {
        assert(p =~= seq!['-']);
        assert(s[i + 1] == '-');
        assert(PieceSet { double_push_pawns: wo.double_push_pawns, ..w_acc } =~= w_acc);
        assert(PieceSet { double_push_pawns: bo.double_push_pawns, ..b_acc } =~= b_acc);
    }
}

/// `token_end` walks to the end of a run of non-spaces.
proof fn lemma_token_end_run(s: Seq<char>, i: int, l: int)
    requires
        0 <= i,
        0 <= l,
        i + l <= s.len(),
        forall|j: int| i <= j < i + l ==> s[j] != ' ',
        i + l == s.len() || s[i + l] == ' ',
    ensures
        token_end(s, i) == i + l,
    decreases l,
{
    if l > 0 {
        lemma_token_end_run(s, i + 1, l - 1);
    }
}

/// `skip_spaces` walks to the end of a run of spaces.
proof fn lemma_skip_spaces_run(s: Seq<char>, i: int, l: int)
    requires
        0 <= i,
        0 <= l,
        i + l <= s.len(),
        forall|j: int| i <= j < i + l ==> s[j] == ' ',
        i + l == s.len() || s[i + l] != ' ',
    ensures
        skip_spaces(s, i) == i + l,
    decreases l,
{
    if l > 0 {
        lemma_skip_spaces_run(s, i + 1, l - 1);
    }
}

/// The FEN round trip: parsing the record emitted for a position restores
/// the position exactly, on all nine persistent bitboards of both sides and
/// the side to move. This asks only what any position reachable in play
/// satisfies: a well-formed board whose two sides do not overlap, castling
/// rights on the corner squares, and at most one en-passant mark, a single
/// bit on the marked side's target rank, with `turn` naming the side to
/// move.
#[verifier::rlimit(100)]
pub proof fn lemma_fen_round_trip(bd: BitBoard, turn: bool)
    requires
        bd.wf(),
        bd.white_set.occupied & bd.black_set.occupied == 0,
        bd.white_set.castle_rooks & !0x81u64 == 0,
        bd.black_set.castle_rooks & !0x8100_0000_0000_0000u64 == 0,
        bd.white_set.double_push_pawns == 0 || (exists|d: u64|
            d < 8 && bd.white_set.double_push_pawns == #[trigger] (1u64 << ((16 + d) as u64))),
        bd.black_set.double_push_pawns == 0 || (exists|d: u64|
            d < 8 && bd.black_set.double_push_pawns == #[trigger] (1u64 << ((40 + d) as u64))),
        !(bd.white_set.double_push_pawns != 0 && bd.black_set.double_push_pawns != 0),
        bd.player == (if turn {
            Player::Black
        } else {
            Player::White
        }),
    ensures
        fen_parse_spec(fen_emit_spec(bd, turn)) matches Some(p) && p.persistent_eq(bd),
{
    let w = bd.white_set;
    let b = bd.black_set;
    let s = fen_emit_spec(bd, turn);
    let rk = emit_ranks(w, b, 7);
    let sc: char = if turn {
        'b'
    } else {
        'w'
    };
    let cs = emit_castling(w, b);
    let p = emit_ep(w, b);
    let i1 = rk.len() as int;
    let cl = cs.len() as int;
    let pl = p.len() as int;
    lemma_castling_text(w, b);
    lemma_ep_text(w, b);

    assert(s =~= rk + seq![' '] + seq![sc] + seq![' '] + cs + seq![' '] + p + seq![
        ' ',
        '0',
        ' ',
        '1',
    ]);
    assert(s.len() == i1 + 8 + cl + pl);
    assert(s.subrange(0, i1) =~= rk);
    assert(s[i1] == ' ');
    assert(s[i1 + 1] == sc);
    assert(s[i1 + 2] == ' ');
    assert(s.subrange(i1 + 3, i1 + 3 + cl) =~= cs);
    assert(s[i1 + 3 + cl] == ' ');
    assert(s.subrange(i1 + 4 + cl, i1 + 4 + cl + pl) =~= p);
    assert(s[i1 + 4 + cl + pl] == ' ');
    assert(s[i1 + 5 + cl + pl] == '0');
    assert(s[i1 + 6 + cl + pl] == ' ');

    // Placement.
    lemma_mask_edges(w.pawns);
    lemma_mask_edges(w.knights);
    lemma_mask_edges(w.bishops);
    lemma_mask_edges(w.rooks);
    lemma_mask_edges(w.queens);
    lemma_mask_edges(w.kings);
    lemma_mask_edges(w.occupied);
    lemma_mask_edges(b.pawns);
    lemma_mask_edges(b.knights);
    lemma_mask_edges(b.bishops);
    lemma_mask_edges(b.rooks);
    lemma_mask_edges(b.queens);
    lemma_mask_edges(b.kings);
    lemma_mask_edges(b.occupied);
    lemma_parse_ranks(s, 0, 7, w, b, PieceSet::spec_empty(), PieceSet::spec_empty());
    let w3 = filled_to(PieceSet::spec_empty(), w, mask_before(0, 8));
    let b3 = filled_to(PieceSet::spec_empty(), b, mask_before(0, 8));
    assert(parse_placement(s, 0, 7, 0, PieceSet::spec_empty(), PieceSet::spec_empty()) == Some(
        (i1, w3, b3),
    ));
    assert(w3 =~= PieceSet { castle_rooks: 0, double_push_pawns: 0, attack_map: 0, ..w });
    assert(b3 =~= PieceSet { castle_rooks: 0, double_push_pawns: 0, attack_map: 0, ..b });

    // Side to move.
    assert(sc != ' ');
    lemma_skip_spaces_run(s, i1, 1);
    assert(skip_spaces(s, i1) == i1 + 1);
    assert(parse_side(s, i1) == Some((i1 + 2, bd.player)));

    // Castling.
    lemma_subrange_shift(s, i1 + 3, cs, 0);
    assert(s[i1 + 3 + 0] == cs[0]);
    lemma_skip_spaces_run(s, i1 + 2, 1);
    assert(skip_spaces(s, i1 + 2) == i1 + 3);
    assert forall|k: int| i1 + 3 <= k < i1 + 3 + cl implies s[k] != ' ' by {
        assert(s[i1 + 3 + (k - i1 - 3)] == cs[k - i1 - 3]);
    }
    lemma_token_end_run(s, i1 + 3, cl);
    assert(token_end(s, i1 + 3) == i1 + 3 + cl);
    lemma_castling_round(s, i1 + 3, w, b, w3, b3);
    let w4 = PieceSet { castle_rooks: w.castle_rooks, ..w3 };
    let b4 = PieceSet { castle_rooks: b.castle_rooks, ..b3 };

    // En passant.
    lemma_ep_round(s, i1 + 3 + cl, w, b, w4, b4);
    let w5 = PieceSet { double_push_pawns: w.double_push_pawns, ..w4 };
    let b5 = PieceSet { double_push_pawns: b.double_push_pawns, ..b4 };
    let i3 = i1 + 4 + cl + pl;
    assert(parse_ep(s, i1 + 3 + cl, w4, b4) == Some((i3, w5, b5)));

    // Halfmove and fullmove fields.
    lemma_skip_spaces_run(s, i3, 1);
    assert(skip_spaces(s, i3) == i3 + 1);
    lemma_token_end_run(s, i3 + 1, 1);
    assert(token_end(s, i3 + 1) == i3 + 2);
    lemma_skip_spaces_run(s, i3 + 2, 1);
    assert(skip_spaces(s, i3 + 2) == i3 + 3);
    assert(i3 + 3 < s.len());
    assert(has_two_more_tokens(s, i3));

    // Assembly.
    let board0 = BitBoard { white_set: w5, black_set: b5, player: bd.player };
    let result = with_attack_map(with_attack_map(board0, bd.player), bd.player.spec_other());
    assert(fen_parse_spec(s) == Some(result));
    assert(result.persistent_eq(bd));
}

} // verus!
