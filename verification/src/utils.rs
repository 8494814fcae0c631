//! Single-bit primitives on 64-bit bitboards, and the bit-level lemmas the
//! rest of the crate builds its proofs on.

use vstd::prelude::*;

verus! {

use vstd::std_specs::bits::u64_leading_zeros;
use vstd::std_specs::bits::u64_trailing_zeros;

/// True when bit `i` of `b` is set.
pub open spec fn bit(b: u64, i: u64) -> bool {
    b & (1u64 << i) != 0
}

/// `b` with bit `i` set.
pub open spec fn set_b(b: u64, i: u64) -> u64 {
    b | (1u64 << i)
}

/// `b` with bit `i` cleared.
pub open spec fn clear_b(b: u64, i: u64) -> u64 {
    b & !(1u64 << i)
}

/// `b` with bit `i` inverted.
pub open spec fn flip_b(b: u64, i: u64) -> u64 {
    b ^ (1u64 << i)
}

pub fn get_bit(bitset: u64, index: usize) -> (r: bool)
    requires
        index < 64,
    ensures
        r == bit(bitset, index as u64),
{
    bitset & (1u64 << index) != 0
}

pub fn test_bit(bitset: u64, index: usize) -> (r: bool)
    requires
        index < 64,
    ensures
        r == bit(bitset, index as u64),
{
    bitset & (1u64 << index) != 0
}

pub fn set_bit(bitset: &mut u64, index: usize)
    requires
        index < 64,
    ensures
        *final(bitset) == set_b(*old(bitset), index as u64),
{
    *bitset |= 1u64 << index;
}

pub fn reset_bit(bitset: &mut u64, index: usize)
    requires
        index < 64,
    ensures
        *final(bitset) == clear_b(*old(bitset), index as u64),
{
    *bitset &= !(1u64 << index);
}

pub fn flip_bit(bitset: &mut u64, index: usize)
    requires
        index < 64,
    ensures
        *final(bitset) == flip_b(*old(bitset), index as u64),
{
    *bitset ^= 1u64 << index;
}

/// Index of the least significant set bit; 64 when `bitset` is zero.
pub fn get_lsb(bitset: u64) -> (r: usize)
    ensures
        r == u64_trailing_zeros(bitset) as usize,
{
    bitset.trailing_zeros() as usize
}

/// Number of leading zero bits (64 when `bitset` is zero).
pub fn get_msb(bitset: u64) -> (r: usize)
    ensures
        r == u64_leading_zeros(bitset) as usize,
{
    bitset.leading_zeros() as usize
}

/// Clearing a set bit and then setting it again restores the word.
pub proof fn lemma_clear_then_set(b: u64, i: u64)
    by (bit_vector)
    requires
        i < 64,
        b & (1u64 << i) != 0,
    ensures
        (b & !(1u64 << i)) | (1u64 << i) == b,
{
}

/// Setting a clear bit and then clearing it again restores the word.
pub proof fn lemma_set_then_clear(b: u64, i: u64)
    by (bit_vector)
    requires
        i < 64,
        b & (1u64 << i) == 0,
    ensures
        (b | (1u64 << i)) & !(1u64 << i) == b,
{
}

/// Moving a bit from `s` to a clear square `d` and back restores the word.
pub proof fn lemma_move_bit_round_trip(b: u64, s: u64, d: u64)
    by (bit_vector)
    requires
        s < 64,
        d < 64,
        s != d,
        b & (1u64 << s) != 0,
        b & (1u64 << d) == 0,
    ensures
        ((((b & !(1u64 << s)) | (1u64 << d)) & !(1u64 << d)) | (1u64 << s)) == b,
{
}

/// Setting a bit on a clear square `d`, re-adding `s`, then clearing `d`
/// restores the word (the en-passant pawn path, reversed in the other
/// order).
pub proof fn lemma_move_bit_round_trip_rev(b: u64, s: u64, d: u64)
    by (bit_vector)
    requires
        s < 64,
        d < 64,
        s != d,
        b & (1u64 << s) != 0,
        b & (1u64 << d) == 0,
    ensures
        ((((b & !(1u64 << s)) | (1u64 << d)) | (1u64 << s)) & !(1u64 << d)) == b,
{
}

/// Membership in a six-way union, bit by bit.
pub proof fn lemma_or6_bit(a: u64, b: u64, c: u64, d: u64, e: u64, f: u64, i: u64)
    by (bit_vector)
    requires
        i < 64,
    ensures
        ((a | b | c | d | e | f) & (1u64 << i) != 0) == (a & (1u64 << i) != 0 || b & (1u64 << i)
            != 0 || c & (1u64 << i) != 0 || d & (1u64 << i) != 0 || e & (1u64 << i) != 0 || f & (
        1u64 << i) != 0),
{
}

/// Clearing a set bit strictly shrinks the word, and `^` agrees with `& !`.
pub proof fn lemma_clear_set_bit_shrinks(b: u64, i: u64)
    by (bit_vector)
    requires
        i < 64,
        b & (1u64 << i) != 0,
    ensures
        (b ^ (1u64 << i)) == (b & !(1u64 << i)),
        (b & !(1u64 << i)) < b,
{
}

/// `|` is associative and commutative with unit 0.
pub proof fn lemma_or_basics(a: u64, b: u64, c: u64)
    by (bit_vector)
    ensures
        a | 0 == a,
        0 | a == a,
        (a | b) | c == a | (b | c),
        a | b == b | a,
{
}

/// Which bits survive clearing bit `i`.
pub proof fn lemma_clear_b_bit(b: u64, i: u64, j: u64)
    by (bit_vector)
    requires
        i < 64,
        j < 64,
    ensures
        ((b & !(1u64 << i)) & (1u64 << j) != 0) == (i != j && b & (1u64 << j) != 0),
{
}

/// Which bits are present after setting bit `i`.
pub proof fn lemma_set_b_bit(b: u64, i: u64, j: u64)
    by (bit_vector)
    requires
        i < 64,
        j < 64,
    ensures
        ((b | (1u64 << i)) & (1u64 << j) != 0) == (i == j || b & (1u64 << j) != 0),
{
}

/// 0 annihilates `&`.
pub proof fn lemma_zero_and()
    by (bit_vector)
    ensures
        forall|x: u64| #[trigger] (0u64 & x) == 0u64,
{
}

/// 0 is the unit of `^`.
pub proof fn lemma_xor_zero(a: u64)
    by (bit_vector)
    ensures
        a ^ 0 == a,
{
}

/// Two single-bit words intersect only when they name the same bit.
pub proof fn lemma_single_bit_eq(i: u64, j: u64)
    by (bit_vector)
    requires
        i < 64,
        j < 64,
    ensures
        ((1u64 << i) & (1u64 << j) != 0) == (i == j),
{
}

/// Membership in a two-way union or difference, bit by bit.
pub proof fn lemma_or2_bit(a: u64, c: u64, i: u64)
    by (bit_vector)
    requires
        i < 64,
    ensures
        ((a | c) & (1u64 << i) != 0) == (a & (1u64 << i) != 0 || c & (1u64 << i) != 0),
        ((a & !c) & (1u64 << i) != 0) == (a & (1u64 << i) != 0 && c & (1u64 << i) == 0),
        ((a & c) & (1u64 << i) != 0) == (a & (1u64 << i) != 0 && c & (1u64 << i) != 0),
{
}

/// A subset's set bit is the superset's set bit.
pub proof fn lemma_sub_bit(x: u64, y: u64, i: u64)
    by (bit_vector)
    requires
        i < 64,
        x & !y == 0,
        x & (1u64 << i) != 0,
    ensures
        y & (1u64 << i) != 0,
{
}

/// A word inside one bit has set bits only there, and shifting it tracks
/// that bit.
pub proof fn lemma_single_sub_bit(x: u64, j: u64, d: u64)
    by (bit_vector)
    requires
        j < 64,
        d < 64,
    ensures
        (x & !(1u64 << j) == 0 && x & (1u64 << d) != 0) ==> d == j,
        ((1u64 << j) & x) & !(1u64 << j) == 0,
        (j < 56 && x & !(1u64 << j) == 0) ==> (x << 8) & !(1u64 << ((j + 8) as u64)) == 0,
        (j >= 8 && x & !(1u64 << j) == 0) ==> (x >> 8) & !(1u64 << ((j - 8) as u64)) == 0,
        (1u64 << j) & !(1u64 << j) == 0,
{
}

/// Masking a word keeps it inside any mask it already sat in.
pub proof fn lemma_and_sub(x: u64, y: u64, m: u64)
    by (bit_vector)
    requires
        x & !m == 0,
    ensures
        (x & !y) & !m == 0,
        (x & y) & !m == 0,
{
}

/// The two ways of reading one bit agree.
pub proof fn lemma_bit_as_shift(b: u64, i: u64)
    by (bit_vector)
    requires
        i < 64,
    ensures
        (b & (1u64 << i) != 0) == ((b >> i) & 1u64 == 1u64),
{
}

/// What `trailing_zeros` returns for a nonzero word: a set bit with only
/// clear bits below it.
pub proof fn lemma_lsb_nonzero(b: u64)
    requires
        b != 0,
    ensures
        u64_trailing_zeros(b) < 64,
        bit(b, u64_trailing_zeros(b) as u64),
        forall|j: u64| j < u64_trailing_zeros(b) ==> !bit(b, j),
{
    broadcast use vstd::std_specs::bits::axiom_u64_trailing_zeros;

    let t = u64_trailing_zeros(b) as u64;
    lemma_bit_as_shift(b, t);
    assert forall|j: u64| j < u64_trailing_zeros(b) implies !bit(b, j) by {
        assert((b >> j) & 1u64 == 0u64);
        lemma_bit_as_shift(b, j);
    }
}

/// `trailing_zeros` of a word with exactly one set bit is that bit's index.
pub proof fn lemma_lsb_single_bit(i: u64)
    requires
        i < 64,
    ensures
        u64_trailing_zeros(1u64 << i) == i,
{
    assert((1u64 << i) != 0 && ((1u64 << i) >> i) & 1u64 == 1u64 && forall|j: u64|
        j < i ==> ((1u64 << i) >> j) & 1u64 == 0u64) by (bit_vector)
        requires
            i < 64,
    ;
    let b = 1u64 << i;
    lemma_lsb_nonzero(b);
    let t = u64_trailing_zeros(b) as u64;
    lemma_bit_as_shift(b, i);
    if t < i {
        lemma_bit_as_shift(b, t);
    }
    if t > i {
        assert(!bit(b, i));
    }
}

} // verus!
