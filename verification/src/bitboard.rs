use vstd::prelude::*;
use crate::types::{Bb, Square};

verus! {

/// Whether square `i` is in bitboard `b`.
pub open spec fn bit(b: u64, i: int) -> bool {
    0 <= i < 64 && (b >> (i as u64)) & 1 == 1
}

/// The squares of a bitboard from square `i` upward, in increasing order.
pub open spec fn squares_from(b: u64, i: int) -> Seq<int>
    decreases 64 - i,
{
    if i >= 64 || i < 0 {
        Seq::empty()
    } else if bit(b, i) {
        seq![i] + squares_from(b, i + 1)
    } else {
        squares_from(b, i + 1)
    }
}

/// The squares of a bitboard in increasing order.
pub open spec fn squares_of(b: u64) -> Seq<int> {
    squares_from(b, 0)
}

/// The number of squares in a bitboard.
pub open spec fn popcount(b: u64) -> nat {
    squares_of(b).len()
}

pub broadcast proof fn lemma_bit_or(x: u64, y: u64, i: int)
    ensures
        #[trigger] bit(x | y, i) == (bit(x, i) || bit(y, i)),
{
    if 0 <= i < 64 {
        let s = i as u64;
        assert((((x | y) >> s) & 1 == 1) == (((x >> s) & 1 == 1) || ((y >> s) & 1 == 1)))
            by (bit_vector);
    }
}

pub broadcast proof fn lemma_bit_and(x: u64, y: u64, i: int)
    ensures
        #[trigger] bit(x & y, i) == (bit(x, i) && bit(y, i)),
{
    if 0 <= i < 64 {
        let s = i as u64;
        assert((((x & y) >> s) & 1 == 1) == (((x >> s) & 1 == 1) && ((y >> s) & 1 == 1)))
            by (bit_vector);
    }
}

pub broadcast proof fn lemma_bit_xor(x: u64, y: u64, i: int)
    ensures
        #[trigger] bit(x ^ y, i) == (bit(x, i) != bit(y, i)),
{
    if 0 <= i < 64 {
        let s = i as u64;
        assert((((x ^ y) >> s) & 1 == 1) == (((x >> s) & 1 == 1) != ((y >> s) & 1 == 1)))
            by (bit_vector);
    }
}

pub broadcast proof fn lemma_bit_not(x: u64, i: int)
    ensures
        #[trigger] bit(!x, i) == (0 <= i < 64 && !bit(x, i)),
{
    if 0 <= i < 64 {
        let s = i as u64;
        assert(s < 64 ==> (((!x) >> s) & 1 == 1) == !((x >> s) & 1 == 1)) by (bit_vector);
    }
}

pub broadcast proof fn lemma_bit_single(s: u64, i: int)
    requires
        s < 64,
    ensures
        #[trigger] bit(1u64 << s, i) == (i == s),
{
    if 0 <= i < 64 {
        let t = i as u64;
        assert(s < 64 && t < 64 ==> (((1u64 << s) >> t) & 1 == 1) == (t == s)) by (bit_vector);
    }
}

pub broadcast proof fn lemma_bit_zero(i: int)
    ensures
        !#[trigger] bit(0u64, i),
{
    if 0 <= i < 64 {
        let t = i as u64;
        assert(((0u64 >> t) & 1 == 1) == false) by (bit_vector);
    }
}

pub broadcast proof fn lemma_bit_shl(x: u64, k: u64, i: int)
    requires
        k < 64,
    ensures
        #[trigger] bit(x << k, i) == (0 <= i < 64 && i >= k && bit(x, i - k)),
{
    if 0 <= i < 64 {
        let t = i as u64;
        let u = (t - k) as u64;
        assert(k < 64 && t < 64 && (t >= k ==> u == t - k) ==> ((((x << k) >> t) & 1 == 1) == (t
            >= k && ((x >> u) & 1) == 1))) by (bit_vector);
    }
}

pub broadcast proof fn lemma_bit_shr(x: u64, k: u64, i: int)
    requires
        k < 64,
    ensures
        #[trigger] bit(x >> k, i) == (0 <= i < 64 && i + k < 64 && bit(x, i + k)),
{
    if 0 <= i < 64 {
        let t = i as u64;
        let u = (t + k) as u64;
        assert(k < 64 && t < 64 && u == t + k ==> ((((x >> k) >> t) & 1 == 1) == (t + k < 64 && ((x
            >> u) & 1) == 1))) by (bit_vector);
    }
}

pub broadcast group group_bit_lemmas {
    lemma_bit_or,
    lemma_bit_and,
    lemma_bit_xor,
    lemma_bit_not,
    lemma_bit_single,
    lemma_bit_zero,
    lemma_bit_shl,
    lemma_bit_shr,
}

proof fn lemma_bits_eq_raw(x: u64, y: u64)
    requires
            ((x >> 0u64) & 1 == 1) == ((y >> 0u64) & 1 == 1),
            ((x >> 1u64) & 1 == 1) == ((y >> 1u64) & 1 == 1),
            ((x >> 2u64) & 1 == 1) == ((y >> 2u64) & 1 == 1),
            ((x >> 3u64) & 1 == 1) == ((y >> 3u64) & 1 == 1),
            ((x >> 4u64) & 1 == 1) == ((y >> 4u64) & 1 == 1),
            ((x >> 5u64) & 1 == 1) == ((y >> 5u64) & 1 == 1),
            ((x >> 6u64) & 1 == 1) == ((y >> 6u64) & 1 == 1),
            ((x >> 7u64) & 1 == 1) == ((y >> 7u64) & 1 == 1),
            ((x >> 8u64) & 1 == 1) == ((y >> 8u64) & 1 == 1),
            ((x >> 9u64) & 1 == 1) == ((y >> 9u64) & 1 == 1),
            ((x >> 10u64) & 1 == 1) == ((y >> 10u64) & 1 == 1),
            ((x >> 11u64) & 1 == 1) == ((y >> 11u64) & 1 == 1),
            ((x >> 12u64) & 1 == 1) == ((y >> 12u64) & 1 == 1),
            ((x >> 13u64) & 1 == 1) == ((y >> 13u64) & 1 == 1),
            ((x >> 14u64) & 1 == 1) == ((y >> 14u64) & 1 == 1),
            ((x >> 15u64) & 1 == 1) == ((y >> 15u64) & 1 == 1),
            ((x >> 16u64) & 1 == 1) == ((y >> 16u64) & 1 == 1),
            ((x >> 17u64) & 1 == 1) == ((y >> 17u64) & 1 == 1),
            ((x >> 18u64) & 1 == 1) == ((y >> 18u64) & 1 == 1),
            ((x >> 19u64) & 1 == 1) == ((y >> 19u64) & 1 == 1),
            ((x >> 20u64) & 1 == 1) == ((y >> 20u64) & 1 == 1),
            ((x >> 21u64) & 1 == 1) == ((y >> 21u64) & 1 == 1),
            ((x >> 22u64) & 1 == 1) == ((y >> 22u64) & 1 == 1),
            ((x >> 23u64) & 1 == 1) == ((y >> 23u64) & 1 == 1),
            ((x >> 24u64) & 1 == 1) == ((y >> 24u64) & 1 == 1),
            ((x >> 25u64) & 1 == 1) == ((y >> 25u64) & 1 == 1),
            ((x >> 26u64) & 1 == 1) == ((y >> 26u64) & 1 == 1),
            ((x >> 27u64) & 1 == 1) == ((y >> 27u64) & 1 == 1),
            ((x >> 28u64) & 1 == 1) == ((y >> 28u64) & 1 == 1),
            ((x >> 29u64) & 1 == 1) == ((y >> 29u64) & 1 == 1),
            ((x >> 30u64) & 1 == 1) == ((y >> 30u64) & 1 == 1),
            ((x >> 31u64) & 1 == 1) == ((y >> 31u64) & 1 == 1),
            ((x >> 32u64) & 1 == 1) == ((y >> 32u64) & 1 == 1),
            ((x >> 33u64) & 1 == 1) == ((y >> 33u64) & 1 == 1),
            ((x >> 34u64) & 1 == 1) == ((y >> 34u64) & 1 == 1),
            ((x >> 35u64) & 1 == 1) == ((y >> 35u64) & 1 == 1),
            ((x >> 36u64) & 1 == 1) == ((y >> 36u64) & 1 == 1),
            ((x >> 37u64) & 1 == 1) == ((y >> 37u64) & 1 == 1),
            ((x >> 38u64) & 1 == 1) == ((y >> 38u64) & 1 == 1),
            ((x >> 39u64) & 1 == 1) == ((y >> 39u64) & 1 == 1),
            ((x >> 40u64) & 1 == 1) == ((y >> 40u64) & 1 == 1),
            ((x >> 41u64) & 1 == 1) == ((y >> 41u64) & 1 == 1),
            ((x >> 42u64) & 1 == 1) == ((y >> 42u64) & 1 == 1),
            ((x >> 43u64) & 1 == 1) == ((y >> 43u64) & 1 == 1),
            ((x >> 44u64) & 1 == 1) == ((y >> 44u64) & 1 == 1),
            ((x >> 45u64) & 1 == 1) == ((y >> 45u64) & 1 == 1),
            ((x >> 46u64) & 1 == 1) == ((y >> 46u64) & 1 == 1),
            ((x >> 47u64) & 1 == 1) == ((y >> 47u64) & 1 == 1),
            ((x >> 48u64) & 1 == 1) == ((y >> 48u64) & 1 == 1),
            ((x >> 49u64) & 1 == 1) == ((y >> 49u64) & 1 == 1),
            ((x >> 50u64) & 1 == 1) == ((y >> 50u64) & 1 == 1),
            ((x >> 51u64) & 1 == 1) == ((y >> 51u64) & 1 == 1),
            ((x >> 52u64) & 1 == 1) == ((y >> 52u64) & 1 == 1),
            ((x >> 53u64) & 1 == 1) == ((y >> 53u64) & 1 == 1),
            ((x >> 54u64) & 1 == 1) == ((y >> 54u64) & 1 == 1),
            ((x >> 55u64) & 1 == 1) == ((y >> 55u64) & 1 == 1),
            ((x >> 56u64) & 1 == 1) == ((y >> 56u64) & 1 == 1),
            ((x >> 57u64) & 1 == 1) == ((y >> 57u64) & 1 == 1),
            ((x >> 58u64) & 1 == 1) == ((y >> 58u64) & 1 == 1),
            ((x >> 59u64) & 1 == 1) == ((y >> 59u64) & 1 == 1),
            ((x >> 60u64) & 1 == 1) == ((y >> 60u64) & 1 == 1),
            ((x >> 61u64) & 1 == 1) == ((y >> 61u64) & 1 == 1),
            ((x >> 62u64) & 1 == 1) == ((y >> 62u64) & 1 == 1),
            ((x >> 63u64) & 1 == 1) == ((y >> 63u64) & 1 == 1),
    ensures
        x == y,
{
    assert(x == y) by (bit_vector)
        requires
            ((x >> 0u64) & 1 == 1) == ((y >> 0u64) & 1 == 1),
            ((x >> 1u64) & 1 == 1) == ((y >> 1u64) & 1 == 1),
            ((x >> 2u64) & 1 == 1) == ((y >> 2u64) & 1 == 1),
            ((x >> 3u64) & 1 == 1) == ((y >> 3u64) & 1 == 1),
            ((x >> 4u64) & 1 == 1) == ((y >> 4u64) & 1 == 1),
            ((x >> 5u64) & 1 == 1) == ((y >> 5u64) & 1 == 1),
            ((x >> 6u64) & 1 == 1) == ((y >> 6u64) & 1 == 1),
            ((x >> 7u64) & 1 == 1) == ((y >> 7u64) & 1 == 1),
            ((x >> 8u64) & 1 == 1) == ((y >> 8u64) & 1 == 1),
            ((x >> 9u64) & 1 == 1) == ((y >> 9u64) & 1 == 1),
            ((x >> 10u64) & 1 == 1) == ((y >> 10u64) & 1 == 1),
            ((x >> 11u64) & 1 == 1) == ((y >> 11u64) & 1 == 1),
            ((x >> 12u64) & 1 == 1) == ((y >> 12u64) & 1 == 1),
            ((x >> 13u64) & 1 == 1) == ((y >> 13u64) & 1 == 1),
            ((x >> 14u64) & 1 == 1) == ((y >> 14u64) & 1 == 1),
            ((x >> 15u64) & 1 == 1) == ((y >> 15u64) & 1 == 1),
            ((x >> 16u64) & 1 == 1) == ((y >> 16u64) & 1 == 1),
            ((x >> 17u64) & 1 == 1) == ((y >> 17u64) & 1 == 1),
            ((x >> 18u64) & 1 == 1) == ((y >> 18u64) & 1 == 1),
            ((x >> 19u64) & 1 == 1) == ((y >> 19u64) & 1 == 1),
            ((x >> 20u64) & 1 == 1) == ((y >> 20u64) & 1 == 1),
            ((x >> 21u64) & 1 == 1) == ((y >> 21u64) & 1 == 1),
            ((x >> 22u64) & 1 == 1) == ((y >> 22u64) & 1 == 1),
            ((x >> 23u64) & 1 == 1) == ((y >> 23u64) & 1 == 1),
            ((x >> 24u64) & 1 == 1) == ((y >> 24u64) & 1 == 1),
            ((x >> 25u64) & 1 == 1) == ((y >> 25u64) & 1 == 1),
            ((x >> 26u64) & 1 == 1) == ((y >> 26u64) & 1 == 1),
            ((x >> 27u64) & 1 == 1) == ((y >> 27u64) & 1 == 1),
            ((x >> 28u64) & 1 == 1) == ((y >> 28u64) & 1 == 1),
            ((x >> 29u64) & 1 == 1) == ((y >> 29u64) & 1 == 1),
            ((x >> 30u64) & 1 == 1) == ((y >> 30u64) & 1 == 1),
            ((x >> 31u64) & 1 == 1) == ((y >> 31u64) & 1 == 1),
            ((x >> 32u64) & 1 == 1) == ((y >> 32u64) & 1 == 1),
            ((x >> 33u64) & 1 == 1) == ((y >> 33u64) & 1 == 1),
            ((x >> 34u64) & 1 == 1) == ((y >> 34u64) & 1 == 1),
            ((x >> 35u64) & 1 == 1) == ((y >> 35u64) & 1 == 1),
            ((x >> 36u64) & 1 == 1) == ((y >> 36u64) & 1 == 1),
            ((x >> 37u64) & 1 == 1) == ((y >> 37u64) & 1 == 1),
            ((x >> 38u64) & 1 == 1) == ((y >> 38u64) & 1 == 1),
            ((x >> 39u64) & 1 == 1) == ((y >> 39u64) & 1 == 1),
            ((x >> 40u64) & 1 == 1) == ((y >> 40u64) & 1 == 1),
            ((x >> 41u64) & 1 == 1) == ((y >> 41u64) & 1 == 1),
            ((x >> 42u64) & 1 == 1) == ((y >> 42u64) & 1 == 1),
            ((x >> 43u64) & 1 == 1) == ((y >> 43u64) & 1 == 1),
            ((x >> 44u64) & 1 == 1) == ((y >> 44u64) & 1 == 1),
            ((x >> 45u64) & 1 == 1) == ((y >> 45u64) & 1 == 1),
            ((x >> 46u64) & 1 == 1) == ((y >> 46u64) & 1 == 1),
            ((x >> 47u64) & 1 == 1) == ((y >> 47u64) & 1 == 1),
            ((x >> 48u64) & 1 == 1) == ((y >> 48u64) & 1 == 1),
            ((x >> 49u64) & 1 == 1) == ((y >> 49u64) & 1 == 1),
            ((x >> 50u64) & 1 == 1) == ((y >> 50u64) & 1 == 1),
            ((x >> 51u64) & 1 == 1) == ((y >> 51u64) & 1 == 1),
            ((x >> 52u64) & 1 == 1) == ((y >> 52u64) & 1 == 1),
            ((x >> 53u64) & 1 == 1) == ((y >> 53u64) & 1 == 1),
            ((x >> 54u64) & 1 == 1) == ((y >> 54u64) & 1 == 1),
            ((x >> 55u64) & 1 == 1) == ((y >> 55u64) & 1 == 1),
            ((x >> 56u64) & 1 == 1) == ((y >> 56u64) & 1 == 1),
            ((x >> 57u64) & 1 == 1) == ((y >> 57u64) & 1 == 1),
            ((x >> 58u64) & 1 == 1) == ((y >> 58u64) & 1 == 1),
            ((x >> 59u64) & 1 == 1) == ((y >> 59u64) & 1 == 1),
            ((x >> 60u64) & 1 == 1) == ((y >> 60u64) & 1 == 1),
            ((x >> 61u64) & 1 == 1) == ((y >> 61u64) & 1 == 1),
            ((x >> 62u64) & 1 == 1) == ((y >> 62u64) & 1 == 1),
            ((x >> 63u64) & 1 == 1) == ((y >> 63u64) & 1 == 1),
    ;
}

/// Two bitboards with the same squares are equal.
pub proof fn lemma_bits_eq(x: u64, y: u64)
    requires
        forall|i: int| 0 <= i < 64 ==> bit(x, i) == bit(y, i),
    ensures
        x == y,
{
    assert(bit(x, 0) == bit(y, 0));
    assert(bit(x, 1) == bit(y, 1));
    assert(bit(x, 2) == bit(y, 2));
    assert(bit(x, 3) == bit(y, 3));
    assert(bit(x, 4) == bit(y, 4));
    assert(bit(x, 5) == bit(y, 5));
    assert(bit(x, 6) == bit(y, 6));
    assert(bit(x, 7) == bit(y, 7));
    assert(bit(x, 8) == bit(y, 8));
    assert(bit(x, 9) == bit(y, 9));
    assert(bit(x, 10) == bit(y, 10));
    assert(bit(x, 11) == bit(y, 11));
    assert(bit(x, 12) == bit(y, 12));
    assert(bit(x, 13) == bit(y, 13));
    assert(bit(x, 14) == bit(y, 14));
    assert(bit(x, 15) == bit(y, 15));
    assert(bit(x, 16) == bit(y, 16));
    assert(bit(x, 17) == bit(y, 17));
    assert(bit(x, 18) == bit(y, 18));
    assert(bit(x, 19) == bit(y, 19));
    assert(bit(x, 20) == bit(y, 20));
    assert(bit(x, 21) == bit(y, 21));
    assert(bit(x, 22) == bit(y, 22));
    assert(bit(x, 23) == bit(y, 23));
    assert(bit(x, 24) == bit(y, 24));
    assert(bit(x, 25) == bit(y, 25));
    assert(bit(x, 26) == bit(y, 26));
    assert(bit(x, 27) == bit(y, 27));
    assert(bit(x, 28) == bit(y, 28));
    assert(bit(x, 29) == bit(y, 29));
    assert(bit(x, 30) == bit(y, 30));
    assert(bit(x, 31) == bit(y, 31));
    assert(bit(x, 32) == bit(y, 32));
    assert(bit(x, 33) == bit(y, 33));
    assert(bit(x, 34) == bit(y, 34));
    assert(bit(x, 35) == bit(y, 35));
    assert(bit(x, 36) == bit(y, 36));
    assert(bit(x, 37) == bit(y, 37));
    assert(bit(x, 38) == bit(y, 38));
    assert(bit(x, 39) == bit(y, 39));
    assert(bit(x, 40) == bit(y, 40));
    assert(bit(x, 41) == bit(y, 41));
    assert(bit(x, 42) == bit(y, 42));
    assert(bit(x, 43) == bit(y, 43));
    assert(bit(x, 44) == bit(y, 44));
    assert(bit(x, 45) == bit(y, 45));
    assert(bit(x, 46) == bit(y, 46));
    assert(bit(x, 47) == bit(y, 47));
    assert(bit(x, 48) == bit(y, 48));
    assert(bit(x, 49) == bit(y, 49));
    assert(bit(x, 50) == bit(y, 50));
    assert(bit(x, 51) == bit(y, 51));
    assert(bit(x, 52) == bit(y, 52));
    assert(bit(x, 53) == bit(y, 53));
    assert(bit(x, 54) == bit(y, 54));
    assert(bit(x, 55) == bit(y, 55));
    assert(bit(x, 56) == bit(y, 56));
    assert(bit(x, 57) == bit(y, 57));
    assert(bit(x, 58) == bit(y, 58));
    assert(bit(x, 59) == bit(y, 59));
    assert(bit(x, 60) == bit(y, 60));
    assert(bit(x, 61) == bit(y, 61));
    assert(bit(x, 62) == bit(y, 62));
    assert(bit(x, 63) == bit(y, 63));
    lemma_bits_eq_raw(x, y);
}

/// Bitboards that agree from square `i` upward list the same squares from there.
pub proof fn lemma_squares_from_agree(x: u64, y: u64, i: int)
    requires
        forall|j: int| i <= j < 64 ==> bit(x, j) == bit(y, j),
    ensures
        squares_from(x, i) == squares_from(y, i),
    decreases 64 - i,
{
    if 0 <= i < 64 {
        lemma_squares_from_agree(x, y, i + 1);
    }
}

/// With no squares in `[i, j)`, the listing from `i` is the listing from `j`.
pub proof fn lemma_squares_from_skip(x: u64, i: int, j: int)
    requires
        0 <= i <= j <= 64,
        forall|k: int| i <= k < j ==> !bit(x, k),
    ensures
        squares_from(x, i) == squares_from(x, j),
    decreases j - i,
{
    if i < j {
        lemma_squares_from_skip(x, i + 1, j);
    }
}

/// The listing from `i` holds exactly the squares of the bitboard at or above `i`,
/// strictly increasing.
pub proof fn lemma_squares_from_members(x: u64, i: int)
    requires
        0 <= i <= 64,
    ensures
        forall|k: int| #![trigger squares_from(x, i)[k]]
            0 <= k < squares_from(x, i).len() ==> i <= squares_from(x, i)[k] < 64 && bit(
                x,
                squares_from(x, i)[k],
            ),
        forall|k: int, l: int|
            0 <= k < l < squares_from(x, i).len() ==> squares_from(x, i)[k] < squares_from(x, i)[l],
        forall|s: int| i <= s < 64 && bit(x, s) ==> squares_from(x, i).contains(s),
        squares_from(x, i).len() <= 64 - i,
    decreases 64 - i,
{
    if i < 64 {
        lemma_squares_from_members(x, i + 1);
        let rest = squares_from(x, i + 1);
        if bit(x, i) {
            let all = seq![i] + rest;
            assert(squares_from(x, i) == all);
            assert forall|k: int| #![trigger all[k]] 0 <= k < all.len() implies i <= all[k] < 64
                && bit(x, all[k]) by {
                if k > 0 {
                    assert(all[k] == rest[k - 1]);
                }
            }
            assert forall|k: int, l: int| 0 <= k < l < all.len() implies all[k] < all[l] by {
                if k > 0 {
                    assert(all[k] == rest[k - 1]);
                }
                assert(all[l] == rest[l - 1]);
            }
            assert forall|s: int| i <= s < 64 && bit(x, s) implies all.contains(s) by {
                if s == i {
                    assert(all[0] == s);
                } else {
                    assert(rest.contains(s));
                    let k = choose|k: int| 0 <= k < rest.len() && rest[k] == s;
                    assert(all[k + 1] == s);
                }
            }
        }
    }
}

/// The empty bitboard has no squares; a nonempty one lists its lowest square first,
/// then the squares of the bitboard without it.
pub proof fn lemma_squares_of_lowest(b: u64, low: int)
    requires
        0 <= low < 64,
        bit(b, low),
        forall|k: int| 0 <= k < low ==> !bit(b, k),
    ensures
        squares_of(b) == seq![low] + squares_of(b & !(1u64 << (low as u64))),
        squares_of(b).len() > 0,
{
    broadcast use group_bit_lemmas;

    let c = b & !(1u64 << (low as u64));
    lemma_squares_from_skip(b, 0, low);
    lemma_squares_from_agree(b, c, low + 1);
    assert forall|k: int| 0 <= k < low + 1 implies !bit(c, k) by {}
    lemma_squares_from_skip(c, 0, low + 1);
}

pub proof fn lemma_squares_of_zero()
    ensures
        squares_of(0u64).len() == 0,
{
    broadcast use group_bit_lemmas;

    lemma_squares_from_skip(0u64, 0, 64);
}

/// A bitboard with no squares is zero, and zero has no squares.
pub proof fn lemma_empty_iff_zero(b: u64)
    ensures
        (b == 0) <==> (forall|i: int| 0 <= i < 64 ==> !bit(b, i)),
        (b == 0) <==> squares_of(b).len() == 0,
{
    broadcast use group_bit_lemmas;

    if forall|i: int| 0 <= i < 64 ==> !bit(b, i) {
        lemma_bits_eq(b, 0u64);
    }
    lemma_squares_from_members(b, 0);
    lemma_squares_of_zero();
    if squares_of(b).len() == 0 && b != 0 {
        let i = choose|i: int| 0 <= i < 64 && bit(b, i);
        assert(squares_of(b).contains(i));
    }
}

/// A bitboard meets the singleton of `sq` exactly when it holds `sq`.
pub proof fn lemma_and_single(x: u64, sq: int)
    requires
        0 <= sq < 64,
    ensures
        (x & (1u64 << (sq as u64)) != 0) == bit(x, sq),
{
    let s = sq as u64;
    assert(s < 64 ==> ((x & (1u64 << s) != 0) == ((x >> s) & 1 == 1))) by (bit_vector);
}

/// The singleton bitboard of a square.
pub fn bb(sq: Square) -> (r: Bb)
    requires
        sq < 64,
    ensures
        r == 1u64 << (sq as u64),
        forall|i: int| bit(r, i) <==> i == sq,
{
    broadcast use group_bit_lemmas;

    1u64 << sq
}

/// The lowest square of a nonempty bitboard.
pub fn bb_lsb(b: Bb) -> (sq: Square)
    requires
        b != 0,
    ensures
        sq < 64,
        bit(b, sq as int),
        forall|k: int| 0 <= k < sq ==> !bit(b, k),
        squares_of(b).len() > 0,
        squares_of(b)[0] == sq,
{
    let t = b.trailing_zeros();
    proof {
        vstd::std_specs::bits::axiom_u64_trailing_zeros(b);
        assert forall|k: int| 0 <= k < t implies !bit(b, k) by {
            let j = k as u64;
            assert((b >> j) & 1u64 == 0u64);
        }
        lemma_squares_of_lowest(b, t as int);
    }
    t as u8
}

/// Removes and returns the lowest square of a nonempty bitboard.
pub fn bb_pop_lsb(b: &mut Bb) -> (sq: Square)
    requires
        *old(b) != 0,
    ensures
        sq < 64,
        bit(*old(b), sq as int),
        squares_of(*old(b)).len() > 0,
        squares_of(*old(b))[0] == sq,
        squares_of(*final(b)) == squares_of(*old(b)).drop_first(),
        *final(b) == *old(b) & !(1u64 << (sq as u64)),
        forall|i: int| bit(*final(b), i) <==> (bit(*old(b), i) && i != sq),
{
    broadcast use group_bit_lemmas;

    let sq = bb_lsb(*b);
    proof {
        lemma_squares_of_lowest(*b, sq as int);
        assert(squares_of(*b).drop_first() =~= squares_of(*b & !(1u64 << (sq as u64))));
    }
    *b = *b & !(1u64 << sq);
    sq
}

/// The number of squares of a bitboard, counted from the top square down.
pub(crate) fn bb_popcount(b: Bb) -> (n: u32)
    ensures
        n == popcount(b),
{
    let mut i: u64 = 64;
    let mut n: u32 = 0;
    while i > 0
        invariant
            i <= 64,
            n <= 64 - i,
            n == squares_from(b, i as int).len(),
        decreases i,
    {
        i -= 1;
        if (b >> i) & 1 == 1 {
            n += 1;
        }
        assert(bit(b, i as int) == ((b >> i) & 1 == 1));
    }
    n
}

/// Every bitboard has at most 64 squares.
pub proof fn lemma_popcount_bound(b: u64)
    ensures
        popcount(b) <= 64,
{
    lemma_squares_from_members(b, 0);
}

} // verus!
