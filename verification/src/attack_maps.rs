//! Precomputed per-square attack tables: sliding rays in eight directions,
//! knight jumps, king steps, pawn pushes and pawn captures. Each table has 65
//! entries; entry 64 is a sentinel holding 0, indexed when a scan finds no
//! square.

use vstd::prelude::*;

verus! {

use crate::utils::lemma_or_basics;

pub open spec fn on_board(f: int, r: int) -> bool {
    0 <= f < 8 && 0 <= r < 8
}

/// Square index of file `f`, rank `r`.
pub open spec fn sq(f: int, r: int) -> int {
    r * 8 + f
}

/// The single-square bitboard of file `f`, rank `r`.
pub open spec fn sq_bit(f: int, r: int) -> u64 {
    1u64 << (sq(f, r) as u64)
}

/// Squares reached from (`f`, `r`) by stepping (`df`, `dr`) until the board
/// edge, exclusive of the start, for at most `fuel` steps.
pub open spec fn ray(f: int, r: int, df: int, dr: int, fuel: nat) -> u64
    decreases fuel,
{
    if fuel == 0 {
        0
    } else {
        let nf = f + df;
        let nr = r + dr;
        if !on_board(nf, nr) {
            0
        } else {
            sq_bit(nf, nr) | ray(nf, nr, df, dr, (fuel - 1) as nat)
        }
    }
}

/// File step of straight direction `d` (0 north, 1 east, 2 south, 3 west).
pub open spec fn straight_df(d: int) -> int {
    if d == 1 {
        1
    } else if d == 3 {
        -1
    } else {
        0
    }
}

/// Rank step of straight direction `d`.
pub open spec fn straight_dr(d: int) -> int {
    if d == 0 {
        1
    } else if d == 2 {
        -1
    } else {
        0
    }
}

/// File step of diagonal direction `d` (0 NE, 1 SE, 2 SW, 3 NW).
pub open spec fn diagonal_df(d: int) -> int {
    if d == 0 || d == 1 {
        1
    } else {
        -1
    }
}

/// Rank step of diagonal direction `d`.
pub open spec fn diagonal_dr(d: int) -> int {
    if d == 0 || d == 3 {
        1
    } else {
        -1
    }
}

pub open spec fn straight_ray(d: int, s: int) -> u64 {
    if 0 <= s < 64 {
        ray(s % 8, s / 8, straight_df(d), straight_dr(d), 7)
    } else {
        0
    }
}

pub open spec fn diagonal_ray(d: int, s: int) -> u64 {
    if 0 <= s < 64 {
        ray(s % 8, s / 8, diagonal_df(d), diagonal_dr(d), 7)
    } else {
        0
    }
}

/// The square one knight-jump or king-step away, or 0 when off the board.
pub open spec fn jump_bit(f: int, r: int, df: int, dr: int) -> u64 {
    if on_board(f + df, r + dr) {
        sq_bit(f + df, r + dr)
    } else {
        0
    }
}

pub open spec fn knight_jumps_spec(s: int) -> u64 {
    if 0 <= s < 64 {
        let f = s % 8;
        let r = s / 8;
        jump_bit(f, r, 1, 2) | jump_bit(f, r, 1, -2) | jump_bit(f, r, -1, 2) | jump_bit(
            f,
            r,
            -1,
            -2,
        ) | jump_bit(f, r, 2, 1) | jump_bit(f, r, 2, -1) | jump_bit(f, r, -2, 1) | jump_bit(
            f,
            r,
            -2,
            -1,
        )
    } else {
        0
    }
}

pub open spec fn king_attacks_spec(s: int) -> u64 {
    if 0 <= s < 64 {
        let f = s % 8;
        let r = s / 8;
        jump_bit(f, r, 1, 1) | jump_bit(f, r, 0, 1) | jump_bit(f, r, -1, 1) | jump_bit(
            f,
            r,
            1,
            0,
        ) | jump_bit(f, r, -1, 0) | jump_bit(f, r, 1, -1) | jump_bit(f, r, 0, -1) | jump_bit(
            f,
            r,
            -1,
            -1,
        )
    } else {
        0
    }
}

/// Single-square forward push for color `c` (0 white, 1 black); empty on the
/// back and promotion ranks.
pub open spec fn pawn_push_spec(c: int, s: int) -> u64 {
    if 8 <= s < 56 {
        if c == 0 {
            1u64 << ((s + 8) as u64)
        } else {
            1u64 << ((s - 8) as u64)
        }
    } else {
        0
    }
}

/// The up-to-two forward diagonal capture squares for color `c`.
pub open spec fn pawn_captures_spec(c: int, s: int) -> u64 {
    if 8 <= s < 56 {
        (if s % 8 != 0 {
            if c == 0 {
                1u64 << ((s + 7) as u64)
            } else {
                1u64 << ((s - 9) as u64)
            }
        } else {
            0
        }) | (if s % 8 != 7 {
            if c == 0 {
                1u64 << ((s + 9) as u64)
            } else {
                1u64 << ((s - 7) as u64)
            }
        } else {
            0
        })
    } else {
        0
    }
}

/// The attack tables, built once at startup and read-only thereafter.
pub struct Tables {
    pub straight_rays: Vec<Vec<u64>>,
    pub diagonal_rays: Vec<Vec<u64>>,
    pub knight_jumps: Vec<u64>,
    pub king_attacks: Vec<u64>,
    pub pawn_push: Vec<Vec<u64>>,
    pub pawn_captures: Vec<Vec<u64>>,
}

impl Tables {
    /// Every table holds exactly its specified entries, sentinel included.
    pub open spec fn wf(self) -> bool {
        &&& self.straight_rays@.len() == 4
        &&& forall|d: int| 0 <= d < 4 ==> #[trigger] self.straight_rays@[d]@.len() == 65
        &&& forall|d: int, s: int|
            0 <= d < 4 && 0 <= s <= 64 ==> #[trigger] self.straight_rays@[d]@[s] == straight_ray(
                d,
                s,
            )
        &&& self.diagonal_rays@.len() == 4
        &&& forall|d: int| 0 <= d < 4 ==> #[trigger] self.diagonal_rays@[d]@.len() == 65
        &&& forall|d: int, s: int|
            0 <= d < 4 && 0 <= s <= 64 ==> #[trigger] self.diagonal_rays@[d]@[s] == diagonal_ray(
                d,
                s,
            )
        &&& self.knight_jumps@.len() == 65
        &&& forall|s: int| 0 <= s <= 64 ==> #[trigger] self.knight_jumps@[s] == knight_jumps_spec(s)
        &&& self.king_attacks@.len() == 65
        &&& forall|s: int| 0 <= s <= 64 ==> #[trigger] self.king_attacks@[s] == king_attacks_spec(s)
        &&& self.pawn_push@.len() == 2
        &&& forall|c: int| 0 <= c < 2 ==> #[trigger] self.pawn_push@[c]@.len() == 65
        &&& forall|c: int, s: int|
            0 <= c < 2 && 0 <= s <= 64 ==> #[trigger] self.pawn_push@[c]@[s] == pawn_push_spec(c, s)
        &&& self.pawn_captures@.len() == 2
        &&& forall|c: int| 0 <= c < 2 ==> #[trigger] self.pawn_captures@[c]@.len() == 65
        &&& forall|c: int, s: int|
            0 <= c < 2 && 0 <= s <= 64 ==> #[trigger] self.pawn_captures@[c]@[s]
                == pawn_captures_spec(c, s)
    }

    /// Build all tables from first principles.
    pub fn new() -> (t: Tables)
        ensures
            t.wf(),
    {
        Tables {
            straight_rays: initialize_straight_rays(),
            diagonal_rays: initialize_diagonal_rays(),
            knight_jumps: initialize_knight_jumps(),
            king_attacks: initialize_king_attacks(),
            pawn_push: initialize_pawn_push(),
            pawn_captures: initialize_pawn_captures(),
        }
    }
}

/// Walk from `s` in direction (`df`, `dr`) to the board edge, collecting the
/// squares stepped onto.
fn compute_ray(s: usize, df: i64, dr: i64) -> (v: u64)
    requires
        s < 64,
        -1 <= df <= 1,
        -1 <= dr <= 1,
    ensures
        v == ray((s % 8) as int, (s / 8) as int, df as int, dr as int, 7),
{
    let mut f: i64 = (s % 8) as i64;
    let mut r: i64 = (s / 8) as i64;
    let mut fuel: u64 = 7;
    let mut acc: u64 = 0;
    proof {
        lemma_or_basics(ray((s % 8) as int, (s / 8) as int, df as int, dr as int, 7), 0, 0);
    }
    while fuel > 0
        invariant
            s < 64,
            -1 <= df <= 1,
            -1 <= dr <= 1,
            0 <= f < 8,
            0 <= r < 8,
            fuel <= 7,
            acc | ray(f as int, r as int, df as int, dr as int, fuel as nat) == ray(
                (s % 8) as int,
                (s / 8) as int,
                df as int,
                dr as int,
                7,
            ),
        decreases fuel,
    {
        let nf = f + df;
        let nr = r + dr;
        if nf < 0 || nf > 7 || nr < 0 || nr > 7 {
            proof {
                assert(!on_board(f + df, r + dr));
                assert(ray(f as int, r as int, df as int, dr as int, fuel as nat) == 0);
                lemma_or_basics(acc, 0, 0);
            }
            return acc;
        }
        let step: u64 = 1u64 << ((nr * 8 + nf) as u64);
        proof {
            lemma_or_basics(
                acc,
                step,
                ray(nf as int, nr as int, df as int, dr as int, (fuel - 1) as nat),
            );
        }
        acc = acc | step;
        f = nf;
        r = nr;
        fuel = fuel - 1;
    }
    proof {
        lemma_or_basics(acc, 0, 0);
    }
    acc
}

/// Build one 65-entry ray table for direction (`df`, `dr`).
fn ray_table(df: i64, dr: i64) -> (t: Vec<u64>)
    requires
        -1 <= df <= 1,
        -1 <= dr <= 1,
    ensures
        t@.len() == 65,
        forall|s: int|
            0 <= s < 64 ==> #[trigger] t@[s] == ray(s % 8, s / 8, df as int, dr as int, 7),
        t@[64] == 0,
{
    let mut t: Vec<u64> = Vec::new();
    let mut s: usize = 0;
    while s < 64
        invariant
            -1 <= df <= 1,
            -1 <= dr <= 1,
            s <= 64,
            t@.len() == s,
            forall|i: int|
                0 <= i < s ==> #[trigger] t@[i] == ray(i % 8, i / 8, df as int, dr as int, 7),
        decreases 64 - s,
    {
        let v = compute_ray(s, df, dr);
        t.push(v);
        s = s + 1;
    }
    t.push(0);
    t
}

/// The four orthogonal ray tables, in direction order north, east, south,
/// west.
pub fn initialize_straight_rays() -> (rays: Vec<Vec<u64>>)
    ensures
        rays@.len() == 4,
        forall|d: int| 0 <= d < 4 ==> #[trigger] rays@[d]@.len() == 65,
        forall|d: int, s: int|
            0 <= d < 4 && 0 <= s <= 64 ==> #[trigger] rays@[d]@[s] == straight_ray(d, s),
{
    let mut rays: Vec<Vec<u64>> = Vec::new();
    rays.push(ray_table(0, 1));
    rays.push(ray_table(1, 0));
    rays.push(ray_table(0, -1));
    rays.push(ray_table(-1, 0));
    rays
}

/// The four diagonal ray tables, in direction order NE, SE, SW, NW.
pub fn initialize_diagonal_rays() -> (rays: Vec<Vec<u64>>)
    ensures
        rays@.len() == 4,
        forall|d: int| 0 <= d < 4 ==> #[trigger] rays@[d]@.len() == 65,
        forall|d: int, s: int|
            0 <= d < 4 && 0 <= s <= 64 ==> #[trigger] rays@[d]@[s] == diagonal_ray(d, s),
{
    let mut rays: Vec<Vec<u64>> = Vec::new();
    rays.push(ray_table(1, 1));
    rays.push(ray_table(1, -1));
    rays.push(ray_table(-1, -1));
    rays.push(ray_table(-1, 1));
    rays
}

/// The square bit at offset (`df`, `dr`) from (`f`, `r`), or 0 off the board.
fn offset_bit(f: i64, r: i64, df: i64, dr: i64) -> (v: u64)
    requires
        0 <= f < 8,
        0 <= r < 8,
        -2 <= df <= 2,
        -2 <= dr <= 2,
    ensures
        v == jump_bit(f as int, r as int, df as int, dr as int),
{
    let nf = f + df;
    let nr = r + dr;
    if nf < 0 || nf > 7 || nr < 0 || nr > 7 {
        0
    } else {
        1u64 << ((nr * 8 + nf) as u64)
    }
}

pub fn initialize_knight_jumps() -> (t: Vec<u64>)
    ensures
        t@.len() == 65,
        forall|s: int| 0 <= s <= 64 ==> #[trigger] t@[s] == knight_jumps_spec(s),
{
    let mut t: Vec<u64> = Vec::new();
    let mut s: usize = 0;
    while s < 64
        invariant
            s <= 64,
            t@.len() == s,
            forall|i: int| 0 <= i < s ==> #[trigger] t@[i] == knight_jumps_spec(i),
        decreases 64 - s,
    {
        let f = (s % 8) as i64;
        let r = (s / 8) as i64;
        let mut e: u64 = offset_bit(f, r, 1, 2);
        e = e | offset_bit(f, r, 1, -2);
        e = e | offset_bit(f, r, -1, 2);
        e = e | offset_bit(f, r, -1, -2);
        e = e | offset_bit(f, r, 2, 1);
        e = e | offset_bit(f, r, 2, -1);
        e = e | offset_bit(f, r, -2, 1);
        e = e | offset_bit(f, r, -2, -1);
        t.push(e);
        s = s + 1;
    }
    t.push(0);
    t
}

pub fn initialize_king_attacks() -> (t: Vec<u64>)
    ensures
        t@.len() == 65,
        forall|s: int| 0 <= s <= 64 ==> #[trigger] t@[s] == king_attacks_spec(s),
{
    let mut t: Vec<u64> = Vec::new();
    let mut s: usize = 0;
    while s < 64
        invariant
            s <= 64,
            t@.len() == s,
            forall|i: int| 0 <= i < s ==> #[trigger] t@[i] == king_attacks_spec(i),
        decreases 64 - s,
    {
        let f = (s % 8) as i64;
        let r = (s / 8) as i64;
        let mut e: u64 = offset_bit(f, r, 1, 1);
        e = e | offset_bit(f, r, 0, 1);
        e = e | offset_bit(f, r, -1, 1);
        e = e | offset_bit(f, r, 1, 0);
        e = e | offset_bit(f, r, -1, 0);
        e = e | offset_bit(f, r, 1, -1);
        e = e | offset_bit(f, r, 0, -1);
        e = e | offset_bit(f, r, -1, -1);
        t.push(e);
        s = s + 1;
    }
    t.push(0);
    t
}

/// One 65-entry pawn table for color `c`, with per-square entries given by
/// `entry`.
pub fn initialize_pawn_push() -> (t: Vec<Vec<u64>>)
    ensures
        t@.len() == 2,
        forall|c: int| 0 <= c < 2 ==> #[trigger] t@[c]@.len() == 65,
        forall|c: int, s: int|
            0 <= c < 2 && 0 <= s <= 64 ==> #[trigger] t@[c]@[s] == pawn_push_spec(c, s),
{
    let mut t: Vec<Vec<u64>> = Vec::new();
    let mut c: usize = 0;
    while c < 2
        invariant
            c <= 2,
            t@.len() == c,
            forall|j: int| 0 <= j < c ==> #[trigger] t@[j]@.len() == 65,
            forall|j: int, s: int|
                0 <= j < c && 0 <= s <= 64 ==> #[trigger] t@[j]@[s] == pawn_push_spec(j, s),
        decreases 2 - c,
    {
        let mut row: Vec<u64> = Vec::new();
        let mut s: usize = 0;
        while s < 64
            invariant
                c < 2,
                s <= 64,
                row@.len() == s,
                forall|i: int| 0 <= i < s ==> #[trigger] row@[i] == pawn_push_spec(c as int, i),
            decreases 64 - s,
        {
            let e: u64 = if 8 <= s && s < 56 {
                if c == 0 {
                    1u64 << ((s + 8) as u64)
                } else {
                    1u64 << ((s - 8) as u64)
                }
            } else {
                0
            };
            row.push(e);
            s = s + 1;
        }
        row.push(0);
        t.push(row);
        c = c + 1;
    }
    t
}

pub fn initialize_pawn_captures() -> (t: Vec<Vec<u64>>)
    ensures
        t@.len() == 2,
        forall|c: int| 0 <= c < 2 ==> #[trigger] t@[c]@.len() == 65,
        forall|c: int, s: int|
            0 <= c < 2 && 0 <= s <= 64 ==> #[trigger] t@[c]@[s] == pawn_captures_spec(c, s),
{
    let mut t: Vec<Vec<u64>> = Vec::new();
    let mut c: usize = 0;
    while c < 2
        invariant
            c <= 2,
            t@.len() == c,
            forall|j: int| 0 <= j < c ==> #[trigger] t@[j]@.len() == 65,
            forall|j: int, s: int|
                0 <= j < c && 0 <= s <= 64 ==> #[trigger] t@[j]@[s] == pawn_captures_spec(j, s),
        decreases 2 - c,
    {
        let mut row: Vec<u64> = Vec::new();
        let mut s: usize = 0;
        while s < 64
            invariant
                c < 2,
                s <= 64,
                row@.len() == s,
                forall|i: int| 0 <= i < s ==> #[trigger] row@[i] == pawn_captures_spec(c as int, i),
            decreases 64 - s,
        {
            let e: u64 = if 8 <= s && s < 56 {
                (if s % 8 != 0 {
                    if c == 0 {
                        1u64 << ((s + 7) as u64)
                    } else {
                        1u64 << ((s - 9) as u64)
                    }
                } else {
                    0
                }) | (if s % 8 != 7 {
                    if c == 0 {
                        1u64 << ((s + 9) as u64)
                    } else {
                        1u64 << ((s - 7) as u64)
                    }
                } else {
                    0
                })
            } else {
                0
            };
            row.push(e);
            s = s + 1;
        }
        row.push(0);
        t.push(row);
        c = c + 1;
    }
    t
}

} // verus!
