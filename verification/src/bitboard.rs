//! Sets of squares held as the bits of a 64-bit word.

use vstd::prelude::*;
use vstd::std_specs::bits::axiom_u64_trailing_zeros;

verus! {

/// Whether bit `i` of `b` is set.
pub open spec fn has_bit(b: u64, i: int) -> bool {
    0 <= i < 64 && (b >> (i as u64)) & 1u64 == 1u64
}

/// The number of bits that are set in `b`.
pub open spec fn bit_count(b: u64) -> nat
    decreases b,
{
    if b == 0 {
        0
    } else {
        bit_count(b / 2) + (b % 2) as nat
    }
}

pub const BIT_TABLE: [u32; 64] = [
    0, 1, 2, 3, 4, 5, 6, 7, 8, 9, 10, 11, 12, 13, 14, 15,
    16, 17, 18, 19, 20, 21, 22, 23, 24, 25, 26, 27, 28, 29, 30, 31,
    32, 33, 34, 35, 36, 37, 38, 39, 40, 41, 42, 43, 44, 45, 46, 47,
    48, 49, 50, 51, 52, 53, 54, 55, 56, 57, 58, 59, 60, 61, 62, 63,
];

/// The table that gives each bit its square: entry `i` is `i`.
pub fn bit_table() -> (table: &'static [u32; 64])
    ensures
        forall|i: int| 0 <= i < 64 ==> table[i] == i,
{
    &BIT_TABLE
}

/// Clearing the lowest set bit of a word takes one from its bit count.
pub proof fn lemma_clear_lowest_bit(b: u64)
    requires
        b != 0,
    ensures
        bit_count(b & ((b - 1) as u64)) + 1 == bit_count(b),
    decreases b,
{
    let below = (b - 1) as u64;
    let cleared = b & below;
    if b % 2 == 1 {
        assert(b % 2 == 1 && below == (b - 1) as u64 ==> (b & below) == below && below / 2 == b
            / 2 && below % 2 == 0) by (bit_vector);
        if cleared != 0 {
            assert(bit_count(cleared) == bit_count(cleared / 2) + (cleared % 2) as nat);
        } else {
            assert(b / 2 == 0);
        }
    } else {
        let half = b / 2;
        let half_below = (half - 1) as u64;
        assert(b != 0 && b % 2 == 0 && below == (b - 1) as u64 && half == b / 2 && half_below == (
        half - 1) as u64 ==> half != 0 && (b & below) / 2 == half & half_below && (b & below) % 2
            == 0) by (bit_vector);
        lemma_clear_lowest_bit(half);
        if cleared != 0 {
            assert(bit_count(cleared) == bit_count(cleared / 2) + (cleared % 2) as nat);
        } else {
            assert(half & half_below == 0);
        }
    }
}

/// Takes the lowest set bit out of `bb` and returns its index, or returns
/// -1 and leaves `bb` at zero where no bit is set.
pub fn pop_bit(bb: &mut u64) -> (index: i32)
    ensures
        *old(bb) == 0 ==> index == -1 && *final(bb) == 0,
        *old(bb) != 0 ==> {
            &&& has_bit(*old(bb), index as int)
            &&& forall|j: int| 0 <= j < index ==> !has_bit(*old(bb), j)
            &&& *final(bb) == *old(bb) & !(1u64 << (index as u64))
            &&& bit_count(*final(bb)) + 1 == bit_count(*old(bb))
        },
{
    if *bb == 0 {
        return -1;
    }
    let word = *bb;
    let lsb_index = word.trailing_zeros();
    proof {
        axiom_u64_trailing_zeros(word);
        let t = lsb_index as u64;
        let below = (word - 1) as u64;
        let shift = (64 - t) as u64;
        assert(word != 0 && below == (word - 1) as u64 && t < 64 && shift == (64 - t) as u64 && (
        word >> t) & 1u64 == 1u64 && word << shift == 0 ==> word & below == word & !(1u64 << t))
            by (bit_vector);
        lemma_clear_lowest_bit(word);
        assert forall|j: int| 0 <= j < lsb_index implies !has_bit(word, j) by {
            assert((word >> (j as u64)) & 1u64 == 0u64);
        }
    }
    *bb = word & (word - 1);
    lsb_index as i32
}

/// The number of bits that are set in `b`.
pub fn count_bits(b: u64) -> (count: i32)
    ensures
        count == bit_count(b),
        0 <= count <= 64,
{
    let mut rest = b;
    let mut r: i32 = 0;
    proof {
        lemma_bit_count_bound(b);
    }
    while rest != 0
        invariant
            r + bit_count(rest) == bit_count(b),
            0 <= r,
            bit_count(b) <= 64,
        decreases bit_count(rest),
    {
        proof {
            lemma_clear_lowest_bit(rest);
        }
        r += 1;
        rest = rest & (rest - 1);
    }
    r
}

/// A word of `n` bits has at most `n` of them set.
proof fn lemma_bit_count_below(b: u64, n: nat)
    requires
        n <= 64,
        b as int <= vstd::arithmetic::power2::pow2(n) - 1,
    ensures
        bit_count(b) <= n,
    decreases n,
{
    vstd::arithmetic::power2::lemma2_to64();
    if b != 0 {
        if n == 0 {
            assert(vstd::arithmetic::power2::pow2(0) == 1);
        } else {
            vstd::arithmetic::power2::lemma_pow2_unfold(n);
            lemma_bit_count_below(b / 2, (n - 1) as nat);
        }
    }
}

/// No word has more than 64 bits set.
pub proof fn lemma_bit_count_bound(b: u64)
    ensures
        bit_count(b) <= 64,
{
    vstd::arithmetic::power2::lemma2_to64();
    lemma_bit_count_below(b, 64);
}

} // verus!
