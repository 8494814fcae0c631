//! One side's pieces: six kind bitboards, their union, and the two
//! right-tracking bitboards (castling rooks, double-pushed pawn).

use vstd::prelude::*;

verus! {

#[derive(Clone)]
#[verifier::ext_equal]
pub struct PieceSet {
    pub rooks: u64,
    pub knights: u64,
    pub bishops: u64,
    pub queens: u64,
    pub kings: u64,
    pub pawns: u64,
    pub occupied: u64,
    pub double_push_pawns: u64,
    pub castle_rooks: u64,
    /// Derived cache: the squares this side attacks. Not part of the
    /// position's identity; valid only right after its own regeneration.
    pub attack_map: u64,
}

impl PieceSet {
    /// The six kind bitboards are pairwise disjoint.
    pub open spec fn kinds_disjoint(self) -> bool {
        &&& self.pawns & self.knights == 0
        &&& self.pawns & self.bishops == 0
        &&& self.pawns & self.rooks == 0
        &&& self.pawns & self.queens == 0
        &&& self.pawns & self.kings == 0
        &&& self.knights & self.bishops == 0
        &&& self.knights & self.rooks == 0
        &&& self.knights & self.queens == 0
        &&& self.knights & self.kings == 0
        &&& self.bishops & self.rooks == 0
        &&& self.bishops & self.queens == 0
        &&& self.bishops & self.kings == 0
        &&& self.rooks & self.queens == 0
        &&& self.rooks & self.kings == 0
        &&& self.queens & self.kings == 0
    }

    /// `occupied` is exactly the union of the six kind bitboards.
    pub open spec fn occupied_exact(self) -> bool {
        self.occupied == self.pawns | self.knights | self.bishops | self.rooks | self.queens
            | self.kings
    }

    /// Only rooks can carry castling rights.
    pub open spec fn castle_rooks_sub_rooks(self) -> bool {
        self.castle_rooks & !self.rooks == 0
    }

    /// The structural invariant of a piece set.
    pub open spec fn wf(self) -> bool {
        self.kinds_disjoint() && self.occupied_exact() && self.castle_rooks_sub_rooks()
    }

    /// The two piece sets agree on every persistent field; the derived
    /// `attack_map` is excluded from the position's identity.
    pub open spec fn persistent_eq(self, other: PieceSet) -> bool {
        &&& self.rooks == other.rooks
        &&& self.knights == other.knights
        &&& self.bishops == other.bishops
        &&& self.queens == other.queens
        &&& self.kings == other.kings
        &&& self.pawns == other.pawns
        &&& self.occupied == other.occupied
        &&& self.double_push_pawns == other.double_push_pawns
        &&& self.castle_rooks == other.castle_rooks
    }

    pub open spec fn spec_empty() -> PieceSet {
        PieceSet {
            rooks: 0,
            knights: 0,
            bishops: 0,
            queens: 0,
            kings: 0,
            pawns: 0,
            occupied: 0,
            double_push_pawns: 0,
            castle_rooks: 0,
            attack_map: 0,
        }
    }

    pub open spec fn spec_starting_white() -> PieceSet {
        PieceSet {
            rooks: 0x81,
            knights: 0x42,
            bishops: 0x24,
            queens: 0x8,
            kings: 0x10,
            pawns: 0xFF00,
            occupied: 0xFFFF,
            double_push_pawns: 0,
            castle_rooks: 0x81,
            attack_map: 0,
        }
    }

    pub open spec fn spec_starting_black() -> PieceSet {
        PieceSet {
            rooks: 0x8100_0000_0000_0000,
            knights: 0x4200_0000_0000_0000,
            bishops: 0x2400_0000_0000_0000,
            queens: 0x0800_0000_0000_0000,
            kings: 0x1000_0000_0000_0000,
            pawns: 0x00FF_0000_0000_0000,
            occupied: 0xFFFF_0000_0000_0000,
            double_push_pawns: 0,
            castle_rooks: 0x8100_0000_0000_0000,
            attack_map: 0,
        }
    }

    pub fn get_empty_piece_set() -> (r: PieceSet)
        ensures
            r == PieceSet::spec_empty(),
            r.wf(),
    {
        proof {
            lemma_empty_wf();
        }
        PieceSet {
            rooks: 0,
            knights: 0,
            bishops: 0,
            queens: 0,
            kings: 0,
            pawns: 0,
            occupied: 0,
            double_push_pawns: 0,
            castle_rooks: 0,
            attack_map: 0,
        }
    }

    pub fn get_starting_white_set() -> (r: PieceSet)
        ensures
            r == PieceSet::spec_starting_white(),
            r.wf(),
    {
        let mut set = PieceSet::get_empty_piece_set();
        set.rooks = 1 | (1 << 7);
        set.knights = (1 << 1) | (1 << 6);
        set.bishops = (1 << 2) | (1 << 5);
        set.queens = 1 << 3;
        set.kings = 1 << 4;
        set.pawns = 0xFF00;
        set.castle_rooks = set.rooks;
        set.occupied = set.rooks | set.knights | set.bishops | set.queens | set.kings | set.pawns;
        proof {
            lemma_starting_white_values();
        }
        set
    }

    pub fn get_starting_black_set() -> (r: PieceSet)
        ensures
            r == PieceSet::spec_starting_black(),
            r.wf(),
    {
        let mut set = PieceSet::get_empty_piece_set();
        set.rooks = (1 << 56) | (1 << 63);
        set.knights = (1 << 57) | (1 << 62);
        set.bishops = (1 << 58) | (1 << 61);
        set.queens = 1 << 59;
        set.kings = 1 << 60;
        set.pawns = 0xFF000000000000;
        set.castle_rooks = set.rooks;
        set.occupied = set.rooks | set.knights | set.bishops | set.queens | set.kings | set.pawns;
        proof {
            lemma_starting_black_values();
        }
        set
    }
}

proof fn lemma_empty_wf()
    by (bit_vector)
    ensures
        0u64 & 0u64 == 0u64,
        (0u64 | 0u64 | 0u64 | 0u64 | 0u64 | 0u64) == 0u64,
        0u64 & !0u64 == 0u64,
{
}

proof fn lemma_starting_white_values()
    by (bit_vector)
    ensures
        (1u64 | (1u64 << 7)) == 0x81u64,
        ((1u64 << 1) | (1u64 << 6)) == 0x42u64,
        ((1u64 << 2) | (1u64 << 5)) == 0x24u64,
        (1u64 << 3) == 0x8u64,
        (1u64 << 4) == 0x10u64,
        (0xFF00u64 | 0x42u64 | 0x24u64 | 0x81u64 | 0x8u64 | 0x10u64) == 0xFFFFu64,
        (0x81u64 | 0x42u64 | 0x24u64 | 0x8u64 | 0x10u64 | 0xFF00u64) == 0xFFFFu64,
        0xFF00u64 & 0x42u64 == 0,
        0xFF00u64 & 0x24u64 == 0,
        0xFF00u64 & 0x81u64 == 0,
        0xFF00u64 & 0x8u64 == 0,
        0xFF00u64 & 0x10u64 == 0,
        0x42u64 & 0x24u64 == 0,
        0x42u64 & 0x81u64 == 0,
        0x42u64 & 0x8u64 == 0,
        0x42u64 & 0x10u64 == 0,
        0x24u64 & 0x81u64 == 0,
        0x24u64 & 0x8u64 == 0,
        0x24u64 & 0x10u64 == 0,
        0x81u64 & 0x8u64 == 0,
        0x81u64 & 0x10u64 == 0,
        0x8u64 & 0x10u64 == 0,
        0x81u64 & !0x81u64 == 0,
{
}

proof fn lemma_starting_black_values()
    by (bit_vector)
    ensures
        ((1u64 << 56) | (1u64 << 63)) == 0x8100_0000_0000_0000u64,
        ((1u64 << 57) | (1u64 << 62)) == 0x4200_0000_0000_0000u64,
        ((1u64 << 58) | (1u64 << 61)) == 0x2400_0000_0000_0000u64,
        (1u64 << 59) == 0x0800_0000_0000_0000u64,
        (1u64 << 60) == 0x1000_0000_0000_0000u64,
        (0x00FF_0000_0000_0000u64 | 0x4200_0000_0000_0000u64 | 0x2400_0000_0000_0000u64
            | 0x8100_0000_0000_0000u64 | 0x0800_0000_0000_0000u64 | 0x1000_0000_0000_0000u64)
            == 0xFFFF_0000_0000_0000u64,
        (0x8100_0000_0000_0000u64 | 0x4200_0000_0000_0000u64 | 0x2400_0000_0000_0000u64
            | 0x0800_0000_0000_0000u64 | 0x1000_0000_0000_0000u64 | 0x00FF_0000_0000_0000u64)
            == 0xFFFF_0000_0000_0000u64,
        0x00FF_0000_0000_0000u64 & 0x4200_0000_0000_0000u64 == 0,
        0x00FF_0000_0000_0000u64 & 0x2400_0000_0000_0000u64 == 0,
        0x00FF_0000_0000_0000u64 & 0x8100_0000_0000_0000u64 == 0,
        0x00FF_0000_0000_0000u64 & 0x0800_0000_0000_0000u64 == 0,
        0x00FF_0000_0000_0000u64 & 0x1000_0000_0000_0000u64 == 0,
        0x4200_0000_0000_0000u64 & 0x2400_0000_0000_0000u64 == 0,
        0x4200_0000_0000_0000u64 & 0x8100_0000_0000_0000u64 == 0,
        0x4200_0000_0000_0000u64 & 0x0800_0000_0000_0000u64 == 0,
        0x4200_0000_0000_0000u64 & 0x1000_0000_0000_0000u64 == 0,
        0x2400_0000_0000_0000u64 & 0x8100_0000_0000_0000u64 == 0,
        0x2400_0000_0000_0000u64 & 0x0800_0000_0000_0000u64 == 0,
        0x2400_0000_0000_0000u64 & 0x1000_0000_0000_0000u64 == 0,
        0x8100_0000_0000_0000u64 & 0x0800_0000_0000_0000u64 == 0,
        0x8100_0000_0000_0000u64 & 0x1000_0000_0000_0000u64 == 0,
        0x0800_0000_0000_0000u64 & 0x1000_0000_0000_0000u64 == 0,
        0x8100_0000_0000_0000u64 & !0x8100_0000_0000_0000u64 == 0,
{
}

} // verus!
