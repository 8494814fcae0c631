//! The two sides of the game.

use vstd::prelude::*;

verus! {

#[derive(Clone, Copy, PartialEq, Eq, Structural, Debug)]
pub enum Player {
    White,
    Black,
}

impl Player {
    /// The opposing side.
    pub open spec fn spec_other(self) -> Player {
        match self {
            Player::White => Player::Black,
            Player::Black => Player::White,
        }
    }

    /// The opposing side.
    pub fn other(self) -> (r: Player)
        ensures
            r == self.spec_other(),
    {
        match self {
            Player::White => Player::Black,
            Player::Black => Player::White,
        }
    }

    /// Row index used by the pawn tables: 0 for White, 1 for Black.
    pub open spec fn spec_index(self) -> int {
        match self {
            Player::White => 0,
            Player::Black => 1,
        }
    }

    /// Row index used by the pawn tables: 0 for White, 1 for Black.
    pub fn table_index(self) -> (r: usize)
        ensures
            r == self.spec_index(),
    {
        match self {
            Player::White => 0,
            Player::Black => 1,
        }
    }
}

} // verus!
